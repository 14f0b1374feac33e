//! Decision logic of the authenticated recording API client: session
//! validation, listing pagination, per-meeting file selection, and the
//! one-retry policy on authorization failures. The HTTP transfers
//! themselves happen outside the library; every response is judged here.

use vstd::prelude::*;
use crate::models::{
    RecordingFileEntry, RecordingListResponse, RecordingSummary, RecordingsResult,
    ZoomRecordingFile,
};
use crate::numfmt::{dec_rep, u64_to_dec};
use crate::store::StorageError;
use crate::text::{contains_seq, contains_sub, str_chars};

verus! {

/// Errors of the recording API client.
#[derive(Debug)]
pub enum ZoomApiError {
    /// No captured session state is stored: the capture flow must run first.
    MissingState,
    /// The provider rejected the session (401/403) even after one retry;
    /// callers go back to session acquisition, they do not abort.
    SessionExpired,
    /// The provider's payload could not be decoded.
    DecodeFailure(String),
    /// The persistence layer failed; fatal.
    Storage(StorageError),
    /// Any other failing response.
    Message(String),
}

/// The most pages one listing run may request.
pub const PAGE_CAP: u32 = 100;

/// The path of the recording-listing endpoint.
pub fn recording_list_path() -> &'static str {
    "/api/v1/lti/rich/recording/COURSE"
}

/// The path of the per-meeting recording-file endpoint.
pub fn recording_file_path() -> &'static str {
    "/api/v1/lti/rich/recording/file"
}

/// The provider's base URL.
pub fn zoom_base_url() -> &'static str {
    "https://applications.zoom.us"
}

/// Relies on chrono's `Utc::now` and date formatting: the current UTC date
/// as `year-month-day`. Nothing is assumed of the clock's reading.
#[verifier::external_body]
pub fn today_ymd() -> String {
    chrono::Utc::now().format("%Y-%m-%d").to_string()
}

/// A live session is proved only by HTTP 200 with a JSON content type;
/// anything else — including a 200 carrying an HTML login page — is not.
pub fn session_live(status: u16, content_type: Option<&str>) -> (r: bool)
    ensures
        r <==> (status == 200 && (content_type matches Some(ct) && contains_seq(
            ct@,
            "application/json"@,
        ))),
{
    if status != 200 {
        return false;
    }
    match content_type {
        Some(ct) => {
            let hay = str_chars(ct);
            let needle = str_chars("application/json");
            contains_sub(&hay, &needle)
        },
        None => false,
    }
}

/// What to do with one response's status, given whether this call was
/// already retried once.
#[derive(Debug, Clone, Copy, PartialEq, Eq, Structural)]
pub enum StatusAction {
    /// A success status: use the body.
    Proceed,
    /// First authorization rejection: retry the identical call once.
    RetryOnce,
    /// Authorization rejected again: the session is expired.
    Expired,
    /// Any other failure: report it.
    Fail,
}

/// Whether a status code is a success (2xx).
pub open spec fn spec_success(status: u16) -> bool {
    200 <= status < 300
}

/// Whether a status code is an authorization rejection.
pub open spec fn spec_auth_reject(status: u16) -> bool {
    status == 401 || status == 403
}

/// Judges one response status. An authorization rejection (401/403) is
/// retried exactly once — it covers a transient cookie-refresh race —
/// and surfaces as an expired session the second time.
pub fn judge_status(status: u16, already_retried: bool) -> (r: StatusAction)
    ensures
        spec_success(status) ==> r == StatusAction::Proceed,
        spec_auth_reject(status) && !already_retried ==> r == StatusAction::RetryOnce,
        spec_auth_reject(status) && already_retried ==> r == StatusAction::Expired,
        !spec_success(status) && !spec_auth_reject(status) ==> r == StatusAction::Fail,
{
    if 200 <= status && status < 300 {
        StatusAction::Proceed
    } else if status == 401 || status == 403 {
        if already_retried {
            StatusAction::Expired
        } else {
            StatusAction::RetryOnce
        }
    } else {
        StatusAction::Fail
    }
}

/// The query of one listing-page request, in order.
pub open spec fn spec_listing_query(
    since: Option<Seq<char>>,
    end_date: Seq<char>,
    page: u32,
    scid: Seq<char>,
) -> Seq<(Seq<char>, Seq<char>)> {
    seq![
        (
            "startTime"@,
            match since {
                Some(s) => s,
                None => Seq::empty(),
            },
        ),
        ("endTime"@, end_date),
        ("keyWord"@, Seq::empty()),
        ("searchType"@, "1"@),
        ("status"@, Seq::empty()),
        ("page"@, dec_rep(page as nat)),
        ("total"@, "0"@),
        ("lti_scid"@, scid),
    ]
}

/// The view of a query-pair list.
pub open spec fn query_view(ps: Seq<(String, String)>) -> Seq<(Seq<char>, Seq<char>)> {
    ps.map_values(|p: (String, String)| (p.0@, p.1@))
}

/// Builds the query of one listing-page request.
pub fn listing_query(since: Option<&String>, end_date: &str, page: u32, scid: &str) -> (r: Vec<
    (String, String),
>)
    ensures
        query_view(r@) =~= spec_listing_query(
            match since {
                Some(s) => Some(s@),
                None => None,
            },
            end_date@,
            page,
            scid@,
        ),
{
    let mut r: Vec<(String, String)> = Vec::new();
    let start = match since {
        Some(s) => s.clone(),
        None => String::new(),
    };
    proof {
        reveal_strlit("");
    }
    r.push(("startTime".to_owned(), start));
    r.push(("endTime".to_owned(), end_date.to_owned()));
    r.push(("keyWord".to_owned(), String::new()));
    r.push(("searchType".to_owned(), "1".to_owned()));
    r.push(("status".to_owned(), String::new()));
    r.push(("page".to_owned(), u64_to_dec(page as u64)));
    r.push(("total".to_owned(), "0".to_owned()));
    r.push(("lti_scid".to_owned(), scid.to_owned()));
    r
}

/// The query of the lightweight validation request: the first listing
/// page, with empty date bounds.
pub fn validation_query(scid: &str) -> (r: Vec<(String, String)>)
    ensures
        query_view(r@) =~= spec_listing_query(None, Seq::empty(), 1, scid@),
{
    let r = listing_query(None, "", 1, scid);
    proof {
        reveal_strlit("");
        assert(""@ =~= Seq::<char>::empty());
        assert(query_view(r@) =~= spec_listing_query(None, Seq::empty(), 1, scid@));
    }
    r
}

/// The query of one per-meeting file request.
pub fn file_query(meeting_id: &str, scid: &str) -> (r: Vec<(String, String)>)
    ensures
        query_view(r@) =~= seq![("meetingId"@, meeting_id@), ("lti_scid"@, scid@)],
{
    let mut r: Vec<(String, String)> = Vec::new();
    r.push(("meetingId".to_owned(), meeting_id.to_owned()));
    r.push(("lti_scid".to_owned(), scid.to_owned()));
    r
}

/// The list a page payload carries, or empty when it carries none.
pub open spec fn spec_page_list(resp: RecordingListResponse) -> Seq<RecordingSummary> {
    match resp.result {
        Some(result) => match result.list {
            Some(list) => list@,
            None => Seq::empty(),
        },
        None => Seq::empty(),
    }
}

/// The declared page size of a page payload, or `0` when absent.
pub open spec fn spec_page_size(resp: RecordingListResponse) -> int {
    match resp.result {
        Some(result) => match result.page_size {
            Some(sz) => sz as int,
            None => 0,
        },
        None => 0,
    }
}

/// The declared total of a page payload, when the payload carries one.
pub open spec fn spec_page_total(resp: RecordingListResponse) -> Option<i64> {
    match resp.result {
        Some(result) => result.total,
        None => None,
    }
}

/// The listing paginator: one page counter, the summaries gathered so far,
/// and the provider-declared total from the first page that carried one.
pub struct Pager {
    /// The page most recently requested, starting at 1.
    pub page: u32,
    /// Every summary gathered so far, in listing order.
    pub collected: Vec<RecordingSummary>,
    /// The provider-declared total, once seen.
    pub total_expected: Option<i64>,
}

/// A pager that is about to consume the payload of page `page`.
pub open spec fn pager_wf(p: Pager) -> bool {
    1 <= p.page <= PAGE_CAP
}

/// The paginator stops on this page payload: the page is empty, the
/// running total reaches the declared total, the page is shorter than the
/// declared page size, or the page cap is reached.
pub open spec fn spec_page_stops(p: Pager, resp: RecordingListResponse) -> bool {
    ||| spec_page_list(resp).len() == 0
    ||| (match spec_total_after(p, resp) {
        Some(total) => p.collected@.len() + spec_page_list(resp).len() >= total,
        None => false,
    })
    ||| spec_page_size(resp) > spec_page_list(resp).len()
    ||| p.page >= PAGE_CAP
}

/// The declared total as known after this page: the first declared total
/// seen wins.
pub open spec fn spec_total_after(p: Pager, resp: RecordingListResponse) -> Option<i64> {
    match p.total_expected {
        Some(t) => Some(t),
        None => spec_page_total(resp),
    }
}

impl Pager {
    /// A paginator before its first request.
    pub fn new() -> (r: Pager)
        ensures
            r.page == 1,
            r.collected@ == Seq::<RecordingSummary>::empty(),
            r.total_expected is None,
            pager_wf(r),
    {
        Pager { page: 1, collected: Vec::new(), total_expected: None }
    }

    /// Consumes one page payload: appends exactly the page's summaries, in
    /// order, learns the declared total, and decides whether the run is
    /// drained. When it is not, the page counter advances to the next page.
    /// A run therefore never requests more than `PAGE_CAP` pages.
    pub fn consume_page(&mut self, resp: &RecordingListResponse) -> (done: bool)
        requires
            pager_wf(*old(self)),
        ensures
            final(self).collected@ == old(self).collected@ + spec_page_list(*resp),
            final(self).total_expected == spec_total_after(*old(self), *resp),
            done == spec_page_stops(*old(self), *resp),
            !done ==> final(self).page == old(self).page + 1 && pager_wf(*final(self)),
            done ==> final(self).page == old(self).page,
    {
        let list_len: usize;
        match &resp.result {
            Some(result) => {
                if self.total_expected.is_none() {
                    self.total_expected = match result.total {
                        Some(t) => Some(t),
                        None => None,
                    };
                }
                match &result.list {
                    Some(list) => {
                        list_len = list.len();
                        let mut i: usize = 0;
                        while i < list.len()
                            invariant
                                i <= list@.len(),
                                self.collected@ == old(self).collected@ + list@.subrange(
                                    0,
                                    i as int,
                                ),
                                self.page == old(self).page,
                                self.total_expected == spec_total_after(*old(self), *resp),
                            decreases list@.len() - i,
                        {
                            self.collected.push(list[i].duplicate());
                            proof {
                                assert(list@.subrange(0, i + 1) =~= list@.subrange(
                                    0,
                                    i as int,
                                ).push(list@[i as int]));
                            }
                            i += 1;
                        }
                        proof {
                            assert(list@.subrange(0, list@.len() as int) =~= list@);
                        }
                    },
                    None => {
                        list_len = 0;
                        proof {
                            assert(self.collected@ =~= old(self).collected@ + spec_page_list(
                                *resp,
                            ));
                        }
                    },
                }
            },
            None => {
                list_len = 0;
                proof {
                    assert(self.collected@ =~= old(self).collected@ + spec_page_list(*resp));
                }
            },
        }
        if list_len == 0 {
            return true;
        }
        let total_reached = match self.total_expected {
            Some(total) => {
                total <= 0 || (self.collected.len() as u64) >= (total as u64)
            },
            None => false,
        };
        proof {
            if self.total_expected is Some {
                let t = self.total_expected->0;
                assert(self.collected@.len() == old(self).collected@.len() + spec_page_list(
                    *resp,
                ).len());
                assert(total_reached == (old(self).collected@.len() + spec_page_list(*resp).len()
                    >= t));
            }

        }
        if total_reached {
            return true;
        }
        let short_page = match &resp.result {
            Some(result) => match result.page_size {
                Some(sz) => sz > 0 && (sz as usize) > list_len,
                None => false,
            },
            None => false,
        };
        proof {
            assert(list_len == spec_page_list(*resp).len());
        }
        if short_page {
            return true;
        }
        if self.page >= PAGE_CAP {
            return true;
        }
        self.page = self.page + 1;
        false
    }

    /// The aggregate response of a drained run: a synthetic single page
    /// holding everything gathered, with matching size and total.
    pub fn into_response(self) -> (r: RecordingListResponse)
        requires
            self.collected@.len() <= i32::MAX,
        ensures
            r.status == Some(true),
            r.code == Some(200i32),
            r.result matches Some(res) && res.list matches Some(list) && list@
                == self.collected@,
            r.result matches Some(res) && res.page_size == Some(
                self.collected@.len() as i32,
            ) && res.total == Some(self.collected@.len() as i64) && res.page_num is None,
    {
        let n = self.collected.len();
        RecordingListResponse {
            status: Some(true),
            code: Some(200),
            result: Some(
                RecordingsResult {
                    page_num: None,
                    page_size: Some(n as i32),
                    total: Some(n as i64),
                    list: Some(self.collected),
                },
            ),
        }
    }
}

/// Pagination terminates: every consumed page either stops the run or
/// advances the page counter toward the cap, so a run consumes at most
/// `PAGE_CAP` pages, whatever the provider returns.
pub proof fn lemma_pagination_bounded(p: Pager, resp: RecordingListResponse)
    requires
        pager_wf(p),
    ensures
        p.page >= PAGE_CAP ==> spec_page_stops(p, resp),
{
}

/// The recording file a payload entry yields for a meeting: the entry's
/// URLs joined with the meeting's descriptive fields.
pub open spec fn spec_file_of(m: RecordingSummary, e: RecordingFileEntry) -> ZoomRecordingFile
    recommends
        e.play_url is Some,
{
    ZoomRecordingFile {
        meeting_id: m.meeting_id,
        play_url: e.play_url->0,
        download_url: e.download_url,
        file_type: e.file_type,
        recording_start: e.recording_start,
        topic: m.topic,
        start_time: m.start_time,
        timezone: m.timezone,
        meeting_number: m.meeting_number,
    }
}

/// The files of a meeting: one per payload entry that exposes a playable
/// URL, in payload order; entries without one are dropped.
pub open spec fn spec_files_of(m: RecordingSummary, es: Seq<RecordingFileEntry>) -> Seq<
    ZoomRecordingFile,
>
    decreases es.len(),
{
    if es.len() == 0 {
        Seq::empty()
    } else {
        spec_files_of(m, es.drop_last()) + if es.last().play_url is Some {
            seq![spec_file_of(m, es.last())]
        } else {
            Seq::empty()
        }
    }
}

/// Selects the usable recording files from one per-meeting payload:
/// exactly the entries exposing a playable URL, joined with the meeting's
/// descriptive fields, in payload order.
pub fn files_from_entries(m: &RecordingSummary, entries: &Vec<RecordingFileEntry>) -> (r: Vec<
    ZoomRecordingFile,
>)
    ensures
        r@ == spec_files_of(*m, entries@),
{
    let mut r: Vec<ZoomRecordingFile> = Vec::new();
    let mut i: usize = 0;
    while i < entries.len()
        invariant
            i <= entries@.len(),
            r@ == spec_files_of(*m, entries@.subrange(0, i as int)),
        decreases entries@.len() - i,
    {
        let e = &entries[i];
        match &e.play_url {
            Some(play_url) => {
                let f = ZoomRecordingFile {
                    meeting_id: m.meeting_id.clone(),
                    play_url: play_url.clone(),
                    download_url: crate::jsonpayload::clone_opt(&e.download_url),
                    file_type: crate::jsonpayload::clone_opt(&e.file_type),
                    recording_start: crate::jsonpayload::clone_opt(&e.recording_start),
                    topic: crate::jsonpayload::clone_opt(&m.topic),
                    start_time: crate::jsonpayload::clone_opt(&m.start_time),
                    timezone: crate::jsonpayload::clone_opt(&m.timezone),
                    meeting_number: crate::jsonpayload::clone_opt(&m.meeting_number),
                };
                proof {
                    assert(f == spec_file_of(*m, entries@[i as int]));
                }
                r.push(f);
            },
            None => {},
        }
        proof {
            assert(entries@.subrange(0, i + 1).drop_last() =~= entries@.subrange(0, i as int));
            assert(entries@.subrange(0, i + 1).last() == entries@[i as int]);
        }
        i += 1;
    }
    proof {
        assert(entries@.subrange(0, entries@.len() as int) =~= entries@);
    }
    r
}

} // verus!
