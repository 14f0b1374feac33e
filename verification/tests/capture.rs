use zoomcap::auth::{decode_body, persist_auth_capture, AuthError, CapturedAuth};
use zoomcap::capture::{cookie_from_parts, CaptureState};
use zoomcap::models::ZoomCookie;
use zoomcap::pipeline::match_asset_event;
use zoomcap::scan::{scan_header_manifest, scan_scid, scan_xsrf_token};
use zoomcap::sso::{is_player_loaded, is_provider_login_page, select_account_tile};
use zoomcap::urlinfo::{classify_request, extract_scid, is_replay_asset, RequestKind};

fn chars(s: &str) -> Vec<char> {
    s.chars().collect()
}

#[test]
fn scid_is_scraped_from_script_text() {
    let body = "var x = 1; window.appConf = { scid: 'abc-123', other: 'y' };";
    let v = chars(body);
    assert_eq!(scan_scid(&v).as_deref(), Some("abc-123"));
    assert_eq!(scan_scid(&chars("no token here")), None);
    // double quotes and spacing are tolerated
    assert_eq!(scan_scid(&chars("scid :  \"q9\"")).as_deref(), Some("q9"));
}

#[test]
fn header_manifest_is_filtered_to_relevant_names() {
    let body = "ajaxHeaders: [ {key: 'X-Zm-Aid', value: 'a1'}, \
                 {key: 'Accept', value: '*/*'}, \
                 { key : \"x-xsrf-token\" , value : \"t-1\" } ]";
    let v = chars(body);
    let m = scan_header_manifest(&v).unwrap();
    assert_eq!(
        m,
        vec![
            ("X-Zm-Aid".to_string(), "a1".to_string()),
            ("x-xsrf-token".to_string(), "t-1".to_string()),
        ]
    );
    assert!(scan_header_manifest(&chars("nothing here")).is_none());
}

#[test]
fn xsrf_fallback_is_scraped() {
    let body = "'X-XSRF-TOKEN': 'zz-9'";
    assert_eq!(scan_xsrf_token(&chars(body)).as_deref(), Some("zz-9"));
    assert_eq!(scan_xsrf_token(&chars("none")), None);
}

#[test]
fn intercepted_body_fills_the_capture() {
    let mut auth = CapturedAuth::new();
    let body = "window.appConf = { scid: 'tok-7', ajaxHeaders: [ {key: 'x-zm-aid', value: 'a'} ] };";
    auth.absorb_body(body);
    assert_eq!(auth.scid.as_deref(), Some("tok-7"));
    assert!(auth.has_headers);
    assert_eq!(auth.headers, vec![("x-zm-aid".to_string(), "a".to_string())]);
    assert!(auth.token_ready());

    // a body without the configuration object changes nothing
    auth.absorb_body("plain page");
    assert_eq!(auth.scid.as_deref(), Some("tok-7"));

    // the fallback fills the CSRF token only where it is missing
    auth.absorb_body("window.appConf = { 'x-xsrf-token': 'cs-1' }");
    assert_eq!(
        auth.headers,
        vec![
            ("x-zm-aid".to_string(), "a".to_string()),
            ("x-xsrf-token".to_string(), "cs-1".to_string()),
        ]
    );
    auth.absorb_body("window.appConf = { 'x-xsrf-token': 'cs-2' }");
    assert_eq!(auth.headers[1].1, "cs-1");
}

#[test]
fn base64_bodies_are_decoded_transparently() {
    assert_eq!(decode_body("aGVsbG8=", true), "hello");
    assert_eq!(decode_body("not@base64", true), "not@base64");
    assert_eq!(decode_body("plain", false), "plain");
}

#[test]
fn capture_requires_token_and_cookies() {
    let dir = tempfile::tempdir().unwrap();
    let db = zoomcap::store::ZoomDb::new(dir.path().to_str().unwrap())
        .map_err(|e| e.detail)
        .unwrap();
    let empty: Vec<ZoomCookie> = Vec::new();
    let no_token = CapturedAuth::new();
    match persist_auth_capture(&db, 1, &no_token, &empty) {
        Err(AuthError::TokenNotCaptured) => {}
        other => panic!("unexpected outcome: {:?}", other.err()),
    }
    let mut with_token = CapturedAuth::new();
    with_token.absorb_body("window.appConf = { scid: 'tok' }");
    match persist_auth_capture(&db, 1, &with_token, &empty) {
        Err(AuthError::CookiesNotCaptured) => {}
        other => panic!("unexpected outcome: {:?}", other.err()),
    }
    let cookies = vec![ZoomCookie {
        domain: ".zoom.us".to_string(),
        name: "s".to_string(),
        value: "v".to_string(),
        path: "/".to_string(),
        expires: None,
        secure: true,
        http_only: true,
    }];
    assert!(persist_auth_capture(&db, 1, &with_token, &cookies).is_ok());
    assert_eq!(db.get_scid(1).map_err(|e| e.detail).unwrap().as_deref(), Some("tok"));
}

#[test]
fn network_events_classify_and_capture() {
    let mut st = CaptureState::new();
    st.on_request(
        None,
        "r1".to_string(),
        "https://applications.zoom.us/api/v1/lti/rich/recording/COURSE?page=1&lti_scid=s-1",
        &vec![("x-zm-aid".to_string(), "a".to_string()), ("Connection".to_string(), "keep-alive".to_string())],
    );
    assert_eq!(st.scid.as_deref(), Some("s-1"));
    assert!(st.list_seen);
    // hop-by-hop names are dropped, kept names are lowercased
    assert_eq!(st.list_headers, vec![("x-zm-aid".to_string(), "a".to_string())]);
    let fetch = st.on_loading_finished(None, "r1".to_string());
    assert_eq!(fetch, Some(RequestKind::RecordingList));

    // an asset request is remembered and finished under its referer
    st.on_request(
        None,
        "r2".to_string(),
        "https://ssrweb.zoom.us/rec/play/file.mp4",
        &vec![("Referer".to_string(), "https://applications.zoom.us/play/x".to_string())],
    );
    let fetch2 = st.on_loading_finished(None, "r2".to_string());
    assert!(fetch2.is_none());
    assert_eq!(st.replay_assets.len(), 1);
    assert_eq!(st.replay_assets[0].0, "https://applications.zoom.us/play/x");
    assert!(!st.ready());
}

#[test]
fn raw_header_text_merges_into_the_capture() {
    let mut st = CaptureState::new();
    st.on_request(
        None,
        "r9".to_string(),
        "https://applications.zoom.us/api/v1/lti/rich/recording/COURSE?lti_scid=s",
        &Vec::new(),
    );
    let text = "X-Zm-Aid: a1\r\nContent-Length: 12\r\n\r\nnot a header line\r\n";
    st.on_extra_info_text(None, "r9".to_string(), text);
    assert_eq!(st.list_headers, vec![("x-zm-aid".to_string(), "a1".to_string())]);
    st.on_extra_info(
        None,
        "r9".to_string(),
        &vec![("x-zm-aid".to_string(), "a2".to_string())],
    );
    assert_eq!(st.list_headers, vec![("x-zm-aid".to_string(), "a2".to_string())]);
}

#[test]
fn stored_assets_are_found_by_play_url() {
    let assets = vec![
        (
            "https://applications.zoom.us/play/a".to_string(),
            zoomcap::models::ReplayHeader {
                download_url: "https://ssrweb.zoom.us/a.mp4".to_string(),
                headers: Vec::new(),
            },
        ),
    ];
    let hit = zoomcap::download::asset_for(&assets, "https://applications.zoom.us/play/a");
    assert_eq!(hit.unwrap().download_url, "https://ssrweb.zoom.us/a.mp4");
    assert!(zoomcap::download::asset_for(&assets, "https://applications.zoom.us/play/b").is_none());
}

#[test]
fn classify_matches_endpoint_fragments() {
    assert_eq!(
        classify_request("https://applications.zoom.us/api/v1/lti/rich/recording/COURSE?x=1"),
        Some(RequestKind::RecordingList)
    );
    assert_eq!(
        classify_request("https://applications.zoom.us/api/v1/lti/rich/recording/file?meetingId=1"),
        Some(RequestKind::RecordingFile)
    );
    assert_eq!(
        classify_request("https://applications.zoom.us/api/v1/lti/rich/meeting/list"),
        Some(RequestKind::MeetingList)
    );
    assert_eq!(classify_request("https://applications.zoom.us/locale/timezones?x"), Some(RequestKind::MeetingList));
    assert_eq!(classify_request("https://example.com/other"), None);
}

#[test]
fn scid_is_read_from_query() {
    assert_eq!(
        extract_scid("https://applications.zoom.us/lti/rich?lti_scid=ab%20c&x=1").as_deref(),
        Some("ab c")
    );
    assert_eq!(extract_scid("https://applications.zoom.us/lti/rich?x=1"), None);
    assert_eq!(extract_scid("not a url"), None);
}

#[test]
fn header_capture_selects_exactly_the_matching_request() {
    // one request to the media host among several unrelated ones
    let headers = vec![
        ("Cookie".to_string(), "a=1".to_string()),
        ("Range".to_string(), "bytes=0-".to_string()),
        ("User-Agent".to_string(), "Mozilla/5.0".to_string()),
    ];
    let hit = match_asset_event("https://cdn.example-zoom.us/rec/abc.mp4?sig=xyz", &headers);
    let asset = hit.expect("the matching request is selected");
    assert_eq!(asset.download_url, "https://cdn.example-zoom.us/rec/abc.mp4?sig=xyz");
    // the full header set is recorded unmodified
    assert_eq!(asset.headers, headers);

    assert!(match_asset_event("https://applications.zoom.us/api/v1/lti/rich/meeting/list", &headers).is_none());
    assert!(match_asset_event("https://tracker.example.net/pixel.gif", &headers).is_none());
    assert!(match_asset_event("https://cdn.example-zoom.us/rec/notes.txt", &headers).is_none());
}

#[test]
fn replay_asset_recognizes_media_paths() {
    assert!(is_replay_asset("https://ssrweb.zoom.us/rec/a.MP4"));
    assert!(is_replay_asset("https://d111.cloudfront.net/x/playlist.m3u8"));
    assert!(is_replay_asset("https://ssrweb.zoom.us/rec/a.mp4?sig=1"));
    assert!(!is_replay_asset("https://ssrweb.zoom.us/rec/a.png"));
    assert!(!is_replay_asset("https://elsewhere.example/x.mp4"));
}

#[test]
fn cookies_are_built_from_reported_parts() {
    let c = cookie_from_parts(
        Some("applications.zoom.us".to_string()),
        Some("n".to_string()),
        Some("v".to_string()),
        Some("/".to_string()),
        Some(12345),
        None,
        Some(true),
    )
    .unwrap();
    assert_eq!(c.domain, "applications.zoom.us");
    assert!(!c.secure);
    assert!(c.http_only);
    assert_eq!(c.expires, Some(12345));
    assert!(cookie_from_parts(None, Some("n".into()), Some("v".into()), Some("/".into()), None, None, None).is_none());
}

#[test]
fn login_pages_are_recognized() {
    assert!(is_provider_login_page("https://zoom.us/signin", ""));
    assert!(is_provider_login_page("https://x", "<div class=\"zm-login-methods__item\">"));
    assert!(!is_provider_login_page("https://applications.zoom.us/rec/play/x", "<video>"));
    assert!(is_player_loaded("https://applications.zoom.us/rec/play/x", "<video>"));
    assert!(!is_player_loaded("https://applications.zoom.us/rec/play/x", "Sign in with Microsoft"));
}

#[test]
fn account_tile_selection_prefers_configured_address() {
    let texts = vec![
        "Sign-in options".to_string(),
        "alice@example.edu".to_string(),
        "Use another account".to_string(),
        "bob@example.edu".to_string(),
    ];
    let email = "BOB@example.edu".to_string();
    assert_eq!(select_account_tile(&texts, Some(&email)), Some(3));
    // without a configured address, the first remembered address wins
    assert_eq!(select_account_tile(&texts, None), Some(1));
    // with an address that no tile shows, "use another account" wins
    let other = "carol@example.edu".to_string();
    assert_eq!(select_account_tile(&texts, Some(&other)), Some(2));
}
