use zoomcap::api::{
    file_query, judge_status, listing_query, session_live, validation_query, Pager,
    StatusAction,
};
use zoomcap::models::{
    RecordingFileEntry, RecordingListResponse, RecordingSummary, RecordingsResult,
};

fn page(total: i64, page_size: i32, count: usize, start: usize) -> RecordingListResponse {
    let list: Vec<RecordingSummary> = (0..count)
        .map(|k| RecordingSummary {
            meeting_id: format!("m-{}", start + k),
            meeting_number: None,
            topic: None,
            start_time: None,
            timezone: None,
        })
        .collect();
    RecordingListResponse {
        status: Some(true),
        code: Some(200),
        result: Some(RecordingsResult {
            page_num: None,
            page_size: Some(page_size),
            total: Some(total),
            list: Some(list),
        }),
    }
}

#[test]
fn pagination_drains_total_in_three_calls() {
    // a declared total of 250 over pages of 100 takes exactly 3 calls,
    // and stops there even though a 4th page would return data
    let mut pager = Pager::new();
    let mut calls = 0;
    let pages = vec![
        page(250, 100, 100, 0),
        page(250, 100, 100, 100),
        page(250, 100, 50, 200),
        page(250, 100, 100, 250), // never consumed
    ];
    let mut done = false;
    for p in &pages {
        calls += 1;
        done = pager.consume_page(p);
        if done {
            break;
        }
    }
    assert!(done);
    assert_eq!(calls, 3);
    let resp = pager.into_response();
    let result = resp.result.unwrap();
    assert_eq!(result.total, Some(250));
    assert_eq!(result.list.unwrap().len(), 250);
}

#[test]
fn pagination_stops_on_empty_page() {
    let mut pager = Pager::new();
    assert!(pager.consume_page(&page(0, 100, 0, 0)));
    assert_eq!(pager.into_response().result.unwrap().list.unwrap().len(), 0);
}

#[test]
fn pagination_stops_on_short_page() {
    let mut pager = Pager::new();
    // no declared total: a page shorter than the declared size ends the run
    let mut p = page(0, 100, 40, 0);
    if let Some(result) = p.result.as_mut() {
        result.total = None;
    }
    assert!(pager.consume_page(&p));
}

#[test]
fn pagination_continues_on_full_page_without_total() {
    let mut pager = Pager::new();
    let mut p = page(0, 100, 100, 0);
    if let Some(result) = p.result.as_mut() {
        result.total = None;
    }
    assert!(!pager.consume_page(&p));
    assert_eq!(pager.page, 2);
}

#[test]
fn session_live_requires_json_200() {
    assert!(session_live(200, Some("application/json; charset=utf-8")));
    assert!(!session_live(200, Some("text/html")));
    assert!(!session_live(200, None));
    assert!(!session_live(302, Some("application/json")));
    assert!(!session_live(401, Some("application/json")));
}

#[test]
fn auth_rejection_is_retried_exactly_once() {
    assert_eq!(judge_status(401, false), StatusAction::RetryOnce);
    assert_eq!(judge_status(401, true), StatusAction::Expired);
    assert_eq!(judge_status(403, false), StatusAction::RetryOnce);
    assert_eq!(judge_status(403, true), StatusAction::Expired);
    assert_eq!(judge_status(200, false), StatusAction::Proceed);
    assert_eq!(judge_status(500, false), StatusAction::Fail);
}

#[test]
fn listing_query_carries_page_and_token() {
    let q = listing_query(None, "2024-05-01", 3, "scid-1");
    assert_eq!(q[0], ("startTime".to_string(), "".to_string()));
    assert_eq!(q[1], ("endTime".to_string(), "2024-05-01".to_string()));
    assert_eq!(q[5], ("page".to_string(), "3".to_string()));
    assert_eq!(q[7], ("lti_scid".to_string(), "scid-1".to_string()));
    let since = "2024-01-01".to_string();
    let q2 = listing_query(Some(&since), "2024-05-01", 1, "scid-1");
    assert_eq!(q2[0], ("startTime".to_string(), "2024-01-01".to_string()));
}

#[test]
fn validation_query_is_first_page() {
    let q = validation_query("scid-9");
    assert_eq!(q[5], ("page".to_string(), "1".to_string()));
    assert_eq!(q[1], ("endTime".to_string(), "".to_string()));
    assert_eq!(q[7], ("lti_scid".to_string(), "scid-9".to_string()));
}

#[test]
fn file_query_names_meeting() {
    let q = file_query("m-7", "scid-2");
    assert_eq!(
        q,
        vec![
            ("meetingId".to_string(), "m-7".to_string()),
            ("lti_scid".to_string(), "scid-2".to_string()),
        ]
    );
}

#[test]
fn files_keep_only_playable_entries() {
    let meeting = RecordingSummary {
        meeting_id: "m-1".to_string(),
        meeting_number: Some("42".to_string()),
        topic: Some("Topic".to_string()),
        start_time: Some("2024-04-02 10:00".to_string()),
        timezone: Some("UTC".to_string()),
    };
    let entries = vec![
        RecordingFileEntry {
            play_url: Some("https://applications.zoom.us/play/a".to_string()),
            download_url: Some("https://applications.zoom.us/dl/a".to_string()),
            file_type: Some("MP4".to_string()),
            recording_start: Some("2024-04-02 10:00".to_string()),
        },
        RecordingFileEntry {
            play_url: None,
            download_url: Some("https://applications.zoom.us/dl/b".to_string()),
            file_type: Some("CHAT".to_string()),
            recording_start: None,
        },
    ];
    let files = zoomcap::api::files_from_entries(&meeting, &entries);
    assert_eq!(files.len(), 1);
    assert_eq!(files[0].meeting_id, "m-1");
    assert_eq!(files[0].play_url, "https://applications.zoom.us/play/a");
    assert_eq!(files[0].topic.as_deref(), Some("Topic"));
    assert_eq!(files[0].meeting_number.as_deref(), Some("42"));
}

#[test]
fn decimal_formatting_is_exact() {
    assert_eq!(zoomcap::numfmt::u64_to_dec(0), "0");
    assert_eq!(zoomcap::numfmt::u64_to_dec(7), "7");
    assert_eq!(zoomcap::numfmt::u64_to_dec(250), "250");
    assert_eq!(zoomcap::numfmt::u64_to_dec(18446744073709551615), "18446744073709551615");
}
