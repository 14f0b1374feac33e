//! Data model of the recording-capture subsystem: cookies, recording
//! listings, per-meeting recording files, and captured replay assets.

use vstd::prelude::*;
use crate::text::{chars_to_string, str_chars, sub_chars};

verus! {

/// One browser cookie as harvested from the authenticated session.
/// Identity key is `(domain, name, path)`. An `expires` of `None` or `0`
/// means the cookie does not expire; any other value is an epoch second
/// and marks the cookie expired once it is not after the current time.
#[derive(Debug, Clone)]
pub struct ZoomCookie {
    pub domain: String,
    pub name: String,
    pub value: String,
    pub path: String,
    pub expires: Option<i64>,
    pub secure: bool,
    pub http_only: bool,
}

impl ZoomCookie {
    /// The identity key of this cookie.
    pub open spec fn key(self) -> (Seq<char>, Seq<char>, Seq<char>) {
        (self.domain@, self.name@, self.path@)
    }

    /// The cookie carries an expiry in the past: an expiry other than
    /// `None` or `0` that is not after `now`.
    pub open spec fn expired_at(self, now: i64) -> bool {
        self.expires matches Some(ts) && ts != 0 && ts <= now
    }
}

/// One downloadable recording file, joined from the listing and the
/// per-meeting file endpoint. Identity key is `(meeting_id, play_url)`.
#[derive(Debug, Clone, PartialEq, Eq)]
pub struct ZoomRecordingFile {
    pub meeting_id: String,
    pub play_url: String,
    pub download_url: Option<String>,
    pub file_type: Option<String>,
    pub recording_start: Option<String>,
    pub topic: Option<String>,
    pub start_time: Option<String>,
    pub timezone: Option<String>,
    pub meeting_number: Option<String>,
}

/// One captured replay asset: the ephemeral signed media URL together with
/// the exact header set of the request that carried it, keyed by the
/// play-page URL (referer) that produced it.
#[derive(Debug, Clone)]
pub struct ReplayHeader {
    pub download_url: String,
    pub headers: Vec<(String, String)>,
}

/// One playable meeting as reported by the listing endpoint.
#[derive(Debug, Clone)]
pub struct RecordingSummary {
    pub meeting_id: String,
    pub meeting_number: Option<String>,
    pub topic: Option<String>,
    pub start_time: Option<String>,
    pub timezone: Option<String>,
}

/// The payload of the recording-listing endpoint. Every field is optional:
/// the provider's payload shape varies and nothing may be assumed present.
#[derive(Debug, Clone)]
pub struct RecordingListResponse {
    pub status: Option<bool>,
    pub code: Option<i32>,
    pub result: Option<RecordingsResult>,
}

/// The `result` object of the recording-listing payload.
#[derive(Debug, Clone)]
pub struct RecordingsResult {
    pub page_num: Option<i32>,
    pub page_size: Option<i32>,
    pub total: Option<i64>,
    pub list: Option<Vec<RecordingSummary>>,
}

/// The payload of the per-meeting recording-file endpoint.
#[derive(Debug, Clone)]
pub struct RecordingFileResponse {
    pub status: Option<bool>,
    pub code: Option<i32>,
    pub result: Option<RecordingFileResult>,
}

/// The `result` object of the recording-file payload.
#[derive(Debug, Clone)]
pub struct RecordingFileResult {
    pub recording_files: Option<Vec<RecordingFileEntry>>,
}

/// One raw entry of the recording-file payload.
#[derive(Debug, Clone)]
pub struct RecordingFileEntry {
    pub play_url: Option<String>,
    pub download_url: Option<String>,
    pub file_type: Option<String>,
    pub recording_start: Option<String>,
}

impl RecordingSummary {
    /// A field-for-field copy.
    pub fn duplicate(&self) -> (r: RecordingSummary)
        ensures
            r == *self,
    {
        RecordingSummary {
            meeting_id: self.meeting_id.clone(),
            meeting_number: crate::jsonpayload::clone_opt(&self.meeting_number),
            topic: crate::jsonpayload::clone_opt(&self.topic),
            start_time: crate::jsonpayload::clone_opt(&self.start_time),
            timezone: crate::jsonpayload::clone_opt(&self.timezone),
        }
    }
}

/// `s` with every `/` replaced by `_`.
pub open spec fn slashes_to_underscores(s: Seq<char>) -> Seq<char> {
    s.map_values(|c: char| if c == '/' { '_' } else { c })
}

/// The date part of a start time: its text up to the first space.
pub open spec fn spec_date_part(s: Seq<char>) -> Seq<char> {
    s.subrange(0, crate::scan::spec_find_char(s, ' ', 0))
}

/// The human-readable base name of one recording: the date part of
/// `start_time` and the topic, joined by `" - "`; with both absent,
/// `"zoom-"` and the meeting id with `/` made path-safe.
pub open spec fn spec_hint(f: ZoomRecordingFile) -> Seq<char> {
    match (f.start_time, f.topic) {
        (Option::None, Option::None) => "zoom-"@ + slashes_to_underscores(f.meeting_id@),
        (Option::None, Option::Some(t)) => t@,
        (Option::Some(st), Option::None) => spec_date_part(st@),
        (Option::Some(st), Option::Some(t)) => spec_date_part(st@) + " - "@ + t@,
    }
}

impl ZoomRecordingFile {
    /// A human-readable base name for this recording: the date part of
    /// `start_time` and the topic, joined by `" - "`; when both are absent,
    /// `"zoom-"` followed by the meeting id with `/` made path-safe.
    pub fn filename_hint(&self) -> (r: String)
        ensures
            r@ == spec_hint(*self),
    {
        match (&self.start_time, &self.topic) {
            (None, None) => {
                let mut out: Vec<char> = str_chars("zoom-");
                let id = str_chars(&self.meeting_id);
                let mut i: usize = 0;
                while i < id.len()
                    invariant
                        i <= id@.len(),
                        id@ == self.meeting_id@,
                        out@ == "zoom-"@ + slashes_to_underscores(id@.subrange(0, i as int)),
                    decreases id@.len() - i,
                {
                    let c = id[i];
                    out.push(if c == '/' { '_' } else { c });
                    proof {
                        assert(id@.subrange(0, i + 1 as int).map_values(
                            |c: char| if c == '/' { '_' } else { c },
                        ) =~= id@.subrange(0, i as int).map_values(
                            |c: char| if c == '/' { '_' } else { c },
                        ).push(if id@[i as int] == '/' { '_' } else { id@[i as int] }));
                    }
                    i += 1;
                }
                proof {
                    assert(id@.subrange(0, id@.len() as int) =~= id@);
                }
                chars_to_string(&out)
            },
            (None, Some(t)) => t.clone(),
            (Some(st), topic) => {
                let sv = str_chars(st);
                let end = crate::scan::find_char(&sv, ' ', 0);
                let tok = sub_chars(&sv, 0, end);
                proof {
                    assert(tok@ == spec_date_part(st@));
                }
                match topic {
                    None => chars_to_string(&tok),
                    Some(t) => {
                        let mut out = chars_to_string(&tok);
                        out.append(" - ");
                        out.append(t.as_str());
                        proof {
                            assert(out@ == tok@ + " - "@ + t@);
                        }
                        out
                    },
                }
            },
        }
    }
}

} // verus!
