//! The session-capture state machine: consumes the browser's network
//! events one at a time, classifies each request, accumulates API headers
//! per endpoint, captures the correlation token, and collects replay
//! assets keyed by the page that produced them. The browser connection
//! only feeds events in and carries the returned commands out.

use vstd::prelude::*;
use crate::headers::{header_view, merge_headers_into, spec_merge_headers};
use crate::jsonpayload::opt_view;
use crate::models::{RecordingListResponse, RecordingSummary, ReplayHeader, ZoomCookie};
use crate::text::{chars_eq, str_chars};
use crate::urlinfo::{
    classify_request, extract_scid, is_sniff_asset, spec_classify, spec_is_sniff_asset,
    spec_scid_of, RequestKind,
};

verus! {

/// The key that correlates events of one in-flight request: the protocol
/// session (absent for the root target) and the request id.
pub struct RequestKey {
    pub session: Option<String>,
    pub request_id: String,
}

/// The view of a request key.
pub open spec fn key_view(k: RequestKey) -> (Option<Seq<char>>, Seq<char>) {
    (opt_view(k.session), k.request_id@)
}

/// Two request keys name the same request.
pub fn key_eq(a: &RequestKey, b: &RequestKey) -> (r: bool)
    ensures
        r == (key_view(*a) == key_view(*b)),
{
    let sess_eq = match (&a.session, &b.session) {
        (None, None) => true,
        (Some(x), Some(y)) => chars_eq(&str_chars(x.as_str()), &str_chars(y.as_str())),
        _ => false,
    };
    if !sess_eq {
        proof {
            assert(opt_view(a.session) != opt_view(b.session));
        }
        return false;
    }
    let r = chars_eq(&str_chars(a.request_id.as_str()), &str_chars(b.request_id.as_str()));
    proof {
        if r {
            assert(key_view(*a) == key_view(*b));
        }
    }
    r
}

/// A copy of a request key.
pub fn key_dup(k: &RequestKey) -> (r: RequestKey)
    ensures
        key_view(r) == key_view(*k),
{
    RequestKey {
        session: crate::jsonpayload::clone_opt(&k.session),
        request_id: k.request_id.clone(),
    }
}

/// The position of `key` in an association list, when present.
pub fn assoc_find<V>(entries: &Vec<(RequestKey, V)>, key: &RequestKey) -> (r: Option<usize>)
    ensures
        match r {
            Some(i) => i < entries@.len() && key_view(entries@[i as int].0) == key_view(*key),
            None => forall|j: int|
                0 <= j < entries@.len() ==> key_view((#[trigger] entries@[j]).0) != key_view(
                    *key,
                ),
        },
{
    let mut i: usize = 0;
    while i < entries.len()
        invariant
            i <= entries@.len(),
            forall|j: int|
                0 <= j < i ==> key_view((#[trigger] entries@[j]).0) != key_view(*key),
        decreases entries@.len() - i,
    {
        if key_eq(&entries[i].0, key) {
            return Some(i);
        }
        i += 1;
    }
    None
}

/// Options of one interactive capture sniff: the course whose state is
/// captured, the local debugging port the browser listens on, and
/// whether the opened tab is kept afterwards.
#[derive(Debug, Clone, Copy)]
pub struct SniffOptions {
    pub course_id: u64,
    pub debug_port: u16,
    pub keep_tab: bool,
}

/// Everything the session-capture sniff accumulates while the page loads.
pub struct CaptureState {
    /// The correlation token, once observed on a classified request.
    pub scid: Option<String>,
    /// The first listing payload captured from a response body.
    pub listing: Option<RecordingListResponse>,
    /// The meeting summaries of that payload.
    pub meetings: Vec<RecordingSummary>,
    /// The browser cookies harvested for the provider's domain.
    pub cookies: Vec<ZoomCookie>,
    /// Captured request headers of the recording-listing endpoint.
    pub list_headers: Vec<(String, String)>,
    /// The listing endpoint has been observed at least once.
    pub list_seen: bool,
    /// Captured request headers of the meeting-listing endpoint.
    pub meeting_headers: Vec<(String, String)>,
    pub meeting_seen: bool,
    /// Captured request headers of the recording-file endpoint.
    pub file_headers: Vec<(String, String)>,
    pub file_seen: bool,
    /// Kinds of classified requests still in flight.
    pub request_map: Vec<(RequestKey, RequestKind)>,
    /// Header sets of replay-asset requests still in flight.
    pub asset_headers: Vec<(RequestKey, Vec<(String, String)>)>,
    /// URLs of replay-asset requests still in flight.
    pub asset_urls: Vec<(RequestKey, String)>,
    /// Finished replay assets, keyed by the referer that produced each;
    /// the first capture for a referer wins.
    pub replay_assets: Vec<(String, ReplayHeader)>,
}

impl CaptureState {
    /// A capture with nothing observed yet.
    pub fn new() -> (r: CaptureState)
        ensures
            r.scid is None,
            r.listing is None,
            r.meetings@.len() == 0,
            r.cookies@.len() == 0,
            r.list_headers@.len() == 0 && !r.list_seen,
            r.meeting_headers@.len() == 0 && !r.meeting_seen,
            r.file_headers@.len() == 0 && !r.file_seen,
            r.request_map@.len() == 0,
            r.asset_headers@.len() == 0,
            r.asset_urls@.len() == 0,
            r.replay_assets@.len() == 0,
    {
        CaptureState {
            scid: None,
            listing: None,
            meetings: Vec::new(),
            cookies: Vec::new(),
            list_headers: Vec::new(),
            list_seen: false,
            meeting_headers: Vec::new(),
            meeting_seen: false,
            file_headers: Vec::new(),
            file_seen: false,
            request_map: Vec::new(),
            asset_headers: Vec::new(),
            asset_urls: Vec::new(),
            replay_assets: Vec::new(),
        }
    }

    /// The captured header set of one request kind.
    pub open spec fn kind_headers(self, kind: RequestKind) -> Seq<(String, String)> {
        match kind {
            RequestKind::RecordingList => self.list_headers@,
            RequestKind::MeetingList => self.meeting_headers@,
            RequestKind::RecordingFile => self.file_headers@,
        }
    }

    /// Enough is captured to end the sniff: a correlation token, at least
    /// one cookie, and the listing endpoint's headers were observed.
    pub fn ready(&self) -> (r: bool)
        ensures
            r == (self.scid is Some && self.cookies@.len() > 0 && self.list_seen),
    {
        self.scid.is_some() && self.cookies.len() > 0 && self.list_seen
    }

    fn merge_into_kind(&mut self, kind: RequestKind, headers: &Vec<(String, String)>)
        ensures
            header_view(final(self).kind_headers(kind)) == spec_merge_headers(
                header_view(old(self).kind_headers(kind)),
                header_view(headers@),
            ),
            kind is RecordingList ==> final(self).list_seen && final(self).meeting_seen == old(
                self,
            ).meeting_seen && final(self).file_seen == old(self).file_seen,
            kind is MeetingList ==> final(self).meeting_seen && final(self).list_seen == old(
                self,
            ).list_seen && final(self).file_seen == old(self).file_seen,
            kind is RecordingFile ==> final(self).file_seen && final(self).list_seen == old(
                self,
            ).list_seen && final(self).meeting_seen == old(self).meeting_seen,
            forall|k: RequestKind|
                k != kind ==> #[trigger] final(self).kind_headers(k) == old(self).kind_headers(
                    k,
                ),
            final(self).scid == old(self).scid,
            final(self).listing == old(self).listing,
            final(self).meetings == old(self).meetings,
            final(self).cookies == old(self).cookies,
            final(self).request_map == old(self).request_map,
            final(self).asset_headers == old(self).asset_headers,
            final(self).asset_urls == old(self).asset_urls,
            final(self).replay_assets == old(self).replay_assets,
    {
        match kind {
            RequestKind::RecordingList => {
                merge_headers_into(&mut self.list_headers, headers);
                self.list_seen = true;
            },
            RequestKind::MeetingList => {
                merge_headers_into(&mut self.meeting_headers, headers);
                self.meeting_seen = true;
            },
            RequestKind::RecordingFile => {
                merge_headers_into(&mut self.file_headers, headers);
                self.file_seen = true;
            },
        }
    }

    /// Consumes one outgoing-request event. A classified API request has
    /// its headers merged into its endpoint's captured set, its key
    /// remembered, and — the core of the capture — the correlation token
    /// taken from its URL. A replay-asset request has its full header set
    /// and URL remembered under its key. Any other request changes
    /// nothing.
    pub fn on_request(
        &mut self,
        session: Option<String>,
        request_id: String,
        url: &str,
        headers: &Vec<(String, String)>,
    )
        ensures
            match spec_classify(url@) {
                Some(kind) => {
                    &&& header_view(final(self).kind_headers(kind)) == spec_merge_headers(
                        header_view(old(self).kind_headers(kind)),
                        header_view(headers@),
                    )
                    &&& final(self).request_map@.len() == old(self).request_map@.len() + 1
                    &&& key_view(final(self).request_map@.last().0) == (
                        opt_view(session),
                        request_id@,
                    )
                    &&& final(self).request_map@.last().1 == kind
                    &&& final(self).request_map@.subrange(
                        0,
                        old(self).request_map@.len() as int,
                    ) == old(self).request_map@
                    &&& final(self).scid == (match spec_scid_of(url@) {
                        Some(s) => Some(s),
                        None => old(self).scid,
                    })
                    &&& final(self).asset_headers == old(self).asset_headers
                    &&& final(self).asset_urls == old(self).asset_urls
                },
                None => {
                    if spec_is_sniff_asset(url@) {
                        &&& final(self).asset_headers@.len() == old(self).asset_headers@.len()
                            + 1
                        &&& key_view(final(self).asset_headers@.last().0) == (
                            opt_view(session),
                            request_id@,
                        )
                        &&& header_view(final(self).asset_headers@.last().1@)
                            == spec_merge_headers(
                            Seq::empty(),
                            header_view(headers@),
                        )
                        &&& final(self).asset_urls@.len() == old(self).asset_urls@.len() + 1
                        &&& key_view(final(self).asset_urls@.last().0) == (
                            opt_view(session),
                            request_id@,
                        )
                        &&& final(self).asset_urls@.last().1@ == url@
                        &&& final(self).request_map == old(self).request_map
                        &&& final(self).scid == old(self).scid
                    } else {
                        *final(self) == *old(self)
                    }
                },
            },
            final(self).listing == old(self).listing,
            final(self).cookies == old(self).cookies,
            final(self).replay_assets == old(self).replay_assets,
    {
        let key = RequestKey { session, request_id };
        match classify_request(url) {
            Some(kind) => {
                self.merge_into_kind(kind, headers);
                match extract_scid(url) {
                    Some(s) => {
                        self.scid = Some(s);
                    },
                    None => {},
                }
                self.request_map.push((key, kind));
                proof {
                    assert(self.request_map@.subrange(
                        0,
                        old(self).request_map@.len() as int,
                    ) =~= old(self).request_map@);
                }
            },
            None => {
                if is_sniff_asset(url) {
                    let mut hs: Vec<(String, String)> = Vec::new();
                    merge_headers_into(&mut hs, headers);
                    proof {
                        assert(header_view(Seq::<(String, String)>::empty()) =~= Seq::<
                            (Seq<char>, Seq<char>),
                        >::empty());
                    }
                    let key2 = key_dup(&key);
                    self.asset_headers.push((key, hs));
                    self.asset_urls.push((key2, url.to_owned()));
                }
            },
        }
    }

    /// Consumes one extra-request-info event: headers reported late are
    /// merged into the captured set of the request they belong to — an
    /// in-flight API request's endpoint set, or an in-flight asset's set.
    pub fn on_extra_info(
        &mut self,
        session: Option<String>,
        request_id: String,
        headers: &Vec<(String, String)>,
    )
        ensures
            final(self).scid == old(self).scid,
            final(self).listing == old(self).listing,
            final(self).cookies == old(self).cookies,
            final(self).replay_assets == old(self).replay_assets,
            final(self).request_map == old(self).request_map,
            final(self).asset_urls == old(self).asset_urls,
    {
        let key = RequestKey { session, request_id };
        match assoc_find(&self.request_map, &key) {
            Some(i) => {
                let kind = self.request_map[i].1;
                self.merge_into_kind(kind, headers);
            },
            None => {
                match assoc_find(&self.asset_headers, &key) {
                    Some(i) => {
                        let (k, mut hs) = self.asset_headers.remove(i);
                        merge_headers_into(&mut hs, headers);
                        self.asset_headers.push((k, hs));
                    },
                    None => {},
                }
            },
        }
    }

    /// Consumes one raw-header-text report for an in-flight request: the
    /// `name: value` lines are merged into the captured set of the
    /// request they belong to, exactly as structured headers are.
    pub fn on_extra_info_text(&mut self, session: Option<String>, request_id: String, text: &str)
        ensures
            final(self).scid == old(self).scid,
            final(self).listing == old(self).listing,
            final(self).cookies == old(self).cookies,
            final(self).replay_assets == old(self).replay_assets,
            final(self).request_map == old(self).request_map,
            final(self).asset_urls == old(self).asset_urls,
    {
        let key = RequestKey { session, request_id };
        match assoc_find(&self.request_map, &key) {
            Some(i) => {
                let kind = self.request_map[i].1;
                match kind {
                    RequestKind::RecordingList => {
                        crate::headers::merge_raw_headers_into(&mut self.list_headers, text);
                        self.list_seen = true;
                    },
                    RequestKind::MeetingList => {
                        crate::headers::merge_raw_headers_into(&mut self.meeting_headers, text);
                        self.meeting_seen = true;
                    },
                    RequestKind::RecordingFile => {
                        crate::headers::merge_raw_headers_into(&mut self.file_headers, text);
                        self.file_seen = true;
                    },
                }
            },
            None => {
                match assoc_find(&self.asset_headers, &key) {
                    Some(i) => {
                        let (k, mut hs) = self.asset_headers.remove(i);
                        crate::headers::merge_raw_headers_into(&mut hs, text);
                        self.asset_headers.push((k, hs));
                    },
                    None => {},
                }
            },
        }
    }

    /// Consumes one loading-finished event. For an in-flight API request
    /// of a listing kind, the caller is told to fetch the response body.
    /// For an in-flight asset request, the asset is finished: when its
    /// headers name a referer not yet captured, the asset is recorded
    /// under that referer — capturing a new asset never invalidates one
    /// already captured.
    pub fn on_loading_finished(&mut self, session: Option<String>, request_id: String) -> (r:
        Option<RequestKind>)
        ensures
            final(self).scid == old(self).scid,
            final(self).listing == old(self).listing,
            final(self).cookies == old(self).cookies,
            r matches Some(kind) ==> (kind is RecordingList || kind is MeetingList),
            final(self).replay_assets@.len() >= old(self).replay_assets@.len(),
            final(self).replay_assets@.subrange(0, old(self).replay_assets@.len() as int) == old(
                self,
            ).replay_assets@,
    {
        let key = RequestKey { session, request_id };
        let mut fetch: Option<RequestKind> = None;
        match assoc_find(&self.request_map, &key) {
            Some(i) => {
                let kind = self.request_map[i].1;
                match kind {
                    RequestKind::RecordingList => {
                        fetch = Some(kind);
                    },
                    RequestKind::MeetingList => {
                        fetch = Some(kind);
                    },
                    RequestKind::RecordingFile => {},
                }
                self.request_map.remove(i);
            },
            None => {},
        }
        let ghost assets0 = self.replay_assets@;
        match assoc_find(&self.asset_headers, &key) {
            Some(i) => {
                let (_, hs) = self.asset_headers.remove(i);
                let url = match assoc_find(&self.asset_urls, &key) {
                    Some(j) => {
                        let (_, u) = self.asset_urls.remove(j);
                        Some(u)
                    },
                    None => None,
                };
                match url {
                    Some(u) => {
                        let referer = match crate::headers::find_header(&hs, "referer") {
                            Some(k) => hs[k].1.clone(),
                            None => String::new(),
                        };
                        let has_ref = !referer.as_str().is_empty();
                        if has_ref && !self.has_replay_asset(&referer) {
                            self.replay_assets.push(
                                (referer, ReplayHeader { download_url: u, headers: hs }),
                            );
                        }
                    },
                    None => {},
                }
            },
            None => {},
        }
        proof {
            assert(self.replay_assets@.subrange(0, assets0.len() as int) =~= assets0);
        }
        fetch
    }

    /// Whether an asset for this referer is already captured.
    pub fn has_replay_asset(&self, referer: &String) -> (r: bool)
        ensures
            r == (exists|j: int|
                0 <= j < self.replay_assets@.len() && (#[trigger] self.replay_assets@[j]).0@
                    == referer@),
    {
        let mut i: usize = 0;
        while i < self.replay_assets.len()
            invariant
                i <= self.replay_assets@.len(),
                forall|j: int|
                    0 <= j < i ==> (#[trigger] self.replay_assets@[j]).0@ != referer@,
            decreases self.replay_assets@.len() - i,
        {
            if self.replay_assets[i].0 == *referer {
                return true;
            }
            i += 1;
        }
        false
    }

    /// Notes the first captured listing payload; later ones are ignored.
    pub fn note_listing(&mut self, resp: RecordingListResponse)
        ensures
            old(self).listing is Some ==> *final(self) == *old(self),
            old(self).listing is None ==> final(self).listing == Some(resp)
                && final(self).meetings@ == crate::api::spec_page_list(resp),
    {
        if self.listing.is_none() {
            let mut meetings: Vec<RecordingSummary> = Vec::new();
            match &resp.result {
                Some(result) => {
                    match &result.list {
                        Some(list) => {
                            let mut i: usize = 0;
                            while i < list.len()
                                invariant
                                    i <= list@.len(),
                                    meetings@ == list@.subrange(0, i as int),
                                decreases list@.len() - i,
                            {
                                meetings.push(list[i].duplicate());
                                proof {
                                    assert(list@.subrange(0, i + 1) =~= list@.subrange(
                                        0,
                                        i as int,
                                    ).push(list@[i as int]));
                                }
                                i += 1;
                            }
                            proof {
                                assert(list@.subrange(0, list@.len() as int) =~= list@);
                            }
                        },
                        None => {},
                    }
                },
                None => {},
            }
            proof {
                assert(meetings@ =~= crate::api::spec_page_list(resp));
            }
            self.meetings = meetings;
            self.listing = Some(resp);
        }
    }

    /// Stores the harvested provider cookies, replacing any prior set.
    pub fn set_cookies(&mut self, cookies: Vec<ZoomCookie>)
        ensures
            final(self).cookies == cookies,
            final(self).scid == old(self).scid,
            final(self).listing == old(self).listing,
            final(self).replay_assets == old(self).replay_assets,
    {
        self.cookies = cookies;
    }
}

/// Builds a cookie from the fields of one observed browser cookie, as the
/// protocol reports them: absent flags default to off, an absent expiry to
/// a non-expiring cookie; a cookie missing any identity field is dropped.
pub fn cookie_from_parts(
    domain: Option<String>,
    name: Option<String>,
    value: Option<String>,
    path: Option<String>,
    expires: Option<i64>,
    secure: Option<bool>,
    http_only: Option<bool>,
) -> (r: Option<ZoomCookie>)
    ensures
        (domain is Some && name is Some && value is Some && path is Some) <==> r is Some,
        r matches Some(c) ==> {
            &&& Some(c.domain) == domain
            &&& Some(c.name) == name
            &&& Some(c.value) == value
            &&& Some(c.path) == path
            &&& c.expires == expires
            &&& c.secure == (secure == Some(true))
            &&& c.http_only == (http_only == Some(true))
        },
{
    match (domain, name, value, path) {
        (Some(domain), Some(name), Some(value), Some(path)) => Some(
            ZoomCookie {
                domain,
                name,
                value,
                path,
                expires,
                secure: matches!(secure, Some(true)),
                http_only: matches!(http_only, Some(true)),
            },
        ),
        _ => None,
    }
}

} // verus!
