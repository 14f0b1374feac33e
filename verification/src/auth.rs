//! Session acquisition: what the interception of the LTI bootstrap
//! response yields, and how a finished capture is persisted. The browser
//! drive itself happens outside the library; every byte it hands back is
//! judged here.

use vstd::prelude::*;
use crate::headers::{header_view, name_ieq, spec_apply_all, spec_first_header};
use crate::jsonpayload::opt_view;
use crate::models::ZoomCookie;
use crate::scan::{scan_header_manifest, scan_scid, scan_xsrf_token, spec_manifest_scan,
    spec_scid_scan, spec_xsrf_scan};
use crate::store::{StorageError, ZoomDb};
use crate::text::{contains_seq, contains_sub, find_sub, occurs_at, str_chars, sub_chars};

verus! {

/// How long the run polls for the correlation token before giving up,
/// in seconds. This deadline is hard: missing it aborts the run.
pub const TOKEN_CAPTURE_TIMEOUT_SECS: u64 = 60;

/// Errors of session acquisition.
#[derive(Debug)]
pub enum AuthError {
    /// No correlation token was captured within the deadline; fatal for
    /// the run.
    TokenNotCaptured,
    /// No provider cookie was harvested; fatal for the run.
    CookiesNotCaptured,
    /// The persistence layer failed; fatal.
    Storage(StorageError),
    /// Browser navigation failed in a named way.
    Navigation(String),
}

/// What the background interception has captured so far: the correlation
/// token, and the API header manifest. One such value is shared between
/// the listener and the polling control flow.
pub struct CapturedAuth {
    pub scid: Option<String>,
    /// The captured header manifest; meaningful once `has_headers` holds.
    pub headers: Vec<(String, String)>,
    /// Whether any manifest or fallback token has been captured yet.
    pub has_headers: bool,
}

/// What a standard-alphabet base64 decode of the text yields; a
/// function of the text alone.
pub uninterp spec fn spec_base64_decoded(s: Seq<char>) -> Option<Seq<u8>>;

/// Relies on the base64 crate's standard-alphabet `decode`: the bytes a
/// base64 text denotes, or nothing when the text is not valid base64.
#[verifier::external_body]
pub fn base64_decode(s: &str) -> (r: Option<Vec<u8>>)
    ensures
        (match r {
            Some(v) => Some(v@),
            None => None,
        }) == spec_base64_decoded(s@),
{
    base64::Engine::decode(&base64::engine::general_purpose::STANDARD, s).ok()
}

/// What a lossy UTF-8 read of the bytes yields; a function of the bytes
/// alone.
pub uninterp spec fn spec_utf8_lossy(bytes: Seq<u8>) -> Seq<char>;

/// Relies on `String::from_utf8_lossy`: the text the bytes decode to,
/// with invalid sequences replaced.
#[verifier::external_body]
pub fn utf8_lossy(bytes: &Vec<u8>) -> (r: String)
    ensures
        r@ == spec_utf8_lossy(bytes@),
{
    String::from_utf8_lossy(bytes).into_owned()
}

/// The text of an intercepted response body: base64-wrapped bodies are
/// decoded transparently, and a body that fails to decode is read as it
/// came.
pub fn decode_body(body: &str, base64_encoded: bool) -> (r: String)
    ensures
        !base64_encoded ==> r@ == body@,
        base64_encoded ==> r@ == (match spec_base64_decoded(body@) {
            Some(bytes) => spec_utf8_lossy(bytes),
            None => body@,
        }),
{
    if base64_encoded {
        match base64_decode(body) {
            Some(bytes) => utf8_lossy(&bytes),
            None => body.to_owned(),
        }
    } else {
        body.to_owned()
    }
}

/// The start of the embedded configuration object, when the body holds
/// one: the first `window.appConf` occurrence.
pub open spec fn spec_conf_idx(s: Seq<char>, i: int) -> Option<int>
    decreases s.len() - i,
{
    if i < 0 || i + 14 > s.len() {
        None
    } else if occurs_at(s, "window.appConf"@, i) {
        Some(i)
    } else {
        spec_conf_idx(s, i + 1)
    }
}

/// The window of body text scanned for authentication artifacts: from the
/// configuration object's start, at most `20000` characters.
pub open spec fn spec_conf_chunk(s: Seq<char>) -> Option<Seq<char>> {
    match spec_conf_idx(s, 0) {
        Some(idx) => Some(
            s.subrange(
                idx,
                if idx + 20000 <= s.len() {
                    idx + 20000
                } else {
                    s.len() as int
                },
            ),
        ),
        None => None,
    }
}

proof fn lemma_conf_idx_gap(s: Seq<char>, a: int, b: int)
    requires
        0 <= a <= b,
        forall|p: int| a <= p < b ==> !occurs_at(s, "window.appConf"@, p),
    ensures
        spec_conf_idx(s, a) == spec_conf_idx(s, b),
    decreases b - a,
{
    if a < b {
        lemma_conf_idx_gap(s, a + 1, b);
    }
}

/// The capture state after absorbing one configuration chunk: the token
/// pattern wins over a previously captured token; a non-empty filtered
/// manifest starts or extends the header set; the CSRF fallback fills in
/// `x-xsrf-token` only where it is still missing.
pub open spec fn spec_absorb(
    scid0: Option<Seq<char>>,
    headers0: Seq<(Seq<char>, Seq<char>)>,
    has0: bool,
    chunk: Seq<char>,
) -> (Option<Seq<char>>, Seq<(Seq<char>, Seq<char>)>, bool) {
    let scid1 = match spec_scid_scan(chunk, 0) {
        Some(t) => Some(t),
        None => scid0,
    };
    let (headers1, has1) = match spec_manifest_scan(chunk, 0) {
        Some(m) => if m.len() > 0 {
            if has0 {
                (spec_apply_all(headers0, m), true)
            } else {
                (m, true)
            }
        } else {
            (headers0, has0)
        },
        None => (headers0, has0),
    };
    let (headers2, has2) = match spec_xsrf_scan(chunk, 0) {
        Some(t) => if !has1 {
            (seq![("x-xsrf-token"@, t)], true)
        } else if spec_first_header(headers1, "x-xsrf-token"@) is Some {
            (headers1, true)
        } else {
            (headers1 + seq![("x-xsrf-token"@, t)], true)
        },
        None => (headers1, has1),
    };
    (scid1, headers2, has2)
}

impl CapturedAuth {
    /// A capture with nothing observed.
    pub fn new() -> (r: CapturedAuth)
        ensures
            r.scid is None,
            r.headers@.len() == 0,
            !r.has_headers,
    {
        CapturedAuth { scid: None, headers: Vec::new(), has_headers: false }
    }

    /// Absorbs one intercepted response body: when it embeds the
    /// configuration object, the token, the filtered header manifest and
    /// the CSRF fallback are scraped out of its window; a body without
    /// one changes nothing.
    pub fn absorb_body(&mut self, body: &str)
        ensures
            spec_conf_chunk(body@) is None ==> *final(self) == *old(self),
            spec_conf_chunk(body@) matches Some(chunk) ==> (
            opt_view(final(self).scid),
            header_view(final(self).headers@),
            final(self).has_headers,
            ) == spec_absorb(
                opt_view(old(self).scid),
                header_view(old(self).headers@),
                old(self).has_headers,
                chunk,
            ),
    {
        let v = str_chars(body);
        let pat = str_chars("window.appConf");
        proof {
            reveal_strlit("window.appConf");
        }
        let idx = match find_sub(&v, &pat, 0) {
            Some(p) => {
                proof {
                    lemma_conf_idx_gap(v@, 0, p as int);
                }
                p
            },
            None => {
                proof {
                    lemma_conf_idx_gap(v@, 0, v@.len() as int);
                    assert(spec_conf_idx(v@, 0) is None);
                }
                return ;
            },
        };
        let end = if v.len() - idx >= 20000 {
            idx + 20000
        } else {
            v.len()
        };
        let chunk = sub_chars(&v, idx, end);
        let ghost s0 = opt_view(old(self).scid);
        let ghost h0 = header_view(old(self).headers@);
        let ghost has0 = old(self).has_headers;
        proof {
            assert(spec_conf_idx(v@, 0) == Some(idx as int));
            assert(spec_conf_chunk(v@) == Some(chunk@));
        }
        match scan_scid(&chunk) {
            Some(t) => {
                self.scid = Some(t);
            },
            None => {},
        }
        proof {
            assert(opt_view(self.scid) == (match spec_scid_scan(chunk@, 0) {
                Some(t) => Some(t),
                None => s0,
            }));
        }
        match scan_header_manifest(&chunk) {
            Some(m) => {
                if m.len() > 0 {
                    if self.has_headers {
                        crate::headers::extend_headers(&mut self.headers, &m);
                    } else {
                        self.headers = m;
                        self.has_headers = true;
                    }
                }
            },
            None => {},
        }
        proof {
            assert((header_view(self.headers@), self.has_headers) == (
            match spec_manifest_scan(chunk@, 0) {
                Some(m) => if m.len() > 0 {
                    if has0 {
                        (spec_apply_all(h0, m), true)
                    } else {
                        (m, true)
                    }
                } else {
                    (h0, has0)
                },
                None => (h0, has0),
            }));
        }
        let ghost h1 = header_view(self.headers@);
        let ghost has1 = self.has_headers;
        match scan_xsrf_token(&chunk) {
            Some(t) => {
                if !self.has_headers {
                    let mut h: Vec<(String, String)> = Vec::new();
                    h.push(("x-xsrf-token".to_owned(), t));
                    proof {
                        assert(header_view(h@) =~= seq![("x-xsrf-token"@, t@)]);
                    }
                    self.headers = h;
                    self.has_headers = true;
                } else {
                    match crate::headers::find_header(&self.headers, "x-xsrf-token") {
                        Some(i) => {
                            proof {
                                crate::headers::lemma_first_header(h1, "x-xsrf-token"@);
                                assert(h1[i as int] == (self.headers@[i as int].0@, self.headers@[
                                    i as int].1@));
                                assert(name_ieq(h1[i as int].0, "x-xsrf-token"@));
                                assert(spec_first_header(h1, "x-xsrf-token"@) is Some);
                            }
                        },
                        None => {
                            proof {
                                crate::headers::lemma_first_header(h1, "x-xsrf-token"@);
                                assert(forall|j: int|
                                    0 <= j < h1.len() ==> !name_ieq(
                                        (#[trigger] h1[j]).0,
                                        "x-xsrf-token"@,
                                    ));
                            }
                            self.headers.push(("x-xsrf-token".to_owned(), t));
                            proof {
                                assert(header_view(self.headers@) =~= h1 + seq![
                                    ("x-xsrf-token"@, t@),
                                ]);
                            }
                        },
                    }
                }
            },
            None => {},
        }
        proof {
            assert((header_view(self.headers@), self.has_headers) == (
            match spec_xsrf_scan(chunk@, 0) {
                Some(t) => if !has1 {
                    (seq![("x-xsrf-token"@, t)], true)
                } else if spec_first_header(h1, "x-xsrf-token"@) is Some {
                    (h1, true)
                } else {
                    (h1 + seq![("x-xsrf-token"@, t)], true)
                },
                None => (h1, has1),
            }));
        }
    }

    /// The token has been captured: the poll that gates the run.
    pub fn token_ready(&self) -> (r: bool)
        ensures
            r == (self.scid is Some),
    {
        self.scid.is_some()
    }
}

/// The provider's cookies among the harvested browser cookies: those
/// whose domain names the provider.
pub fn filter_zoom_cookies(cookies: Vec<ZoomCookie>) -> (r: Vec<ZoomCookie>)
    ensures
        r@ == cookies@.filter(zoom_cookie_pred()),
{
    let needle = str_chars("zoom.us");
    let mut out: Vec<ZoomCookie> = Vec::new();
    let n = cookies.len();
    let mut i: usize = 0;
    while i < n
        invariant
            i <= n,
            n == cookies@.len(),
            needle@ == "zoom.us"@,
            out@ == cookies@.subrange(0, i as int).filter(zoom_cookie_pred()),
        decreases n - i,
    {
        let keep = contains_sub(&str_chars(cookies[i].domain.as_str()), &needle);
        proof {
            let pre = cookies@.subrange(0, i as int);
            let one = seq![cookies@[i as int]];
            assert(cookies@.subrange(0, i + 1) =~= pre + one);
            Seq::filter_distributes_over_add(pre, one, zoom_cookie_pred());
            reveal_with_fuel(Seq::filter, 2);
            assert(one.drop_last() =~= Seq::<ZoomCookie>::empty());
            assert(keep == zoom_cookie_pred()(cookies@[i as int]));
        }
        if keep {
            out.push(cookies[i].clone_cookie());
        }
        i += 1;
    }
    proof {
        assert(cookies@.subrange(0, n as int) =~= cookies@);
    }
    out
}

/// A cookie scoped to the provider's domain.
pub open spec fn zoom_cookie_pred() -> spec_fn(ZoomCookie) -> bool {
    |c: ZoomCookie| contains_seq(c.domain@, "zoom.us"@)
}

/// Writes a finished capture into the session store, replacing prior
/// state: the token (fatal when never captured), then the header
/// manifest under the recording endpoint's path (absent headers are a
/// soft failure: later calls may be rejected and are handled there), then
/// the harvested cookies (fatal when none).
pub fn persist_auth_capture(
    db: &ZoomDb,
    course_id: u64,
    auth: &CapturedAuth,
    cookies: &Vec<ZoomCookie>,
) -> (r: Result<(), AuthError>)
    ensures
        (r matches Err(e) && e is TokenNotCaptured) <==> auth.scid is None,
        r is Ok ==> auth.scid is Some && cookies@.len() > 0,
        auth.scid is Some && cookies@.len() == 0 ==> !(r is Ok),
{
    let scid = match &auth.scid {
        Some(s) => s,
        None => {
            return Err(AuthError::TokenNotCaptured);
        },
    };
    match db.save_scid(course_id, scid.as_str()) {
        Ok(()) => {},
        Err(e) => {
            return Err(AuthError::Storage(e));
        },
    }
    if auth.headers.len() > 0 {
        match db.save_request_headers(course_id, "/api/v1/lti/rich/recording", &auth.headers) {
            Ok(()) => {},
            Err(e) => {
                return Err(AuthError::Storage(e));
            },
        }
    }
    if cookies.len() == 0 {
        return Err(AuthError::CookiesNotCaptured);
    }
    match db.replace_cookies(cookies) {
        Ok(()) => Ok(()),
        Err(e) => Err(AuthError::Storage(e)),
    }
}

} // verus!
