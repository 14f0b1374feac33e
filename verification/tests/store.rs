use std::error::Error;

use chrono::Utc;
use rusqlite::Connection;
use tempfile::tempdir;
use zoomcap::models::ZoomCookie;
use zoomcap::store::ZoomDb;

fn cookie(name: &str, value: &str, expires: Option<i64>) -> ZoomCookie {
    ZoomCookie {
        domain: "applications.zoom.us".into(),
        name: name.into(),
        value: value.into(),
        path: "/".into(),
        expires,
        secure: false,
        http_only: false,
    }
}

#[test]
fn load_cookies_filters_expired_entries() -> Result<(), Box<dyn Error>> {
    let dir = tempdir()?;
    let db = ZoomDb::new(dir.path().to_str().unwrap()).map_err(|e| e.detail)?;
    let now = Utc::now().timestamp();

    let cookies = vec![
        cookie("valid", "1", Some(now + 3600)),
        cookie("session", "2", Some(0)),
        cookie("expired", "0", Some(now - 3600)),
    ];

    db.replace_cookies(&cookies).map_err(|e| e.detail)?;
    let (_, loaded) = db.load_cookies().map_err(|e| e.detail)?;

    let names: Vec<&str> = loaded.iter().map(|c| c.name.as_str()).collect();
    assert!(names.contains(&"valid"));
    assert!(names.contains(&"session"));
    assert!(!names.contains(&"expired"));

    let conn = Connection::open(dir.path().join("zoom_state.sqlite"))?;
    let count: i64 = conn.query_row(
        "SELECT COUNT(*) FROM zoom_cookie WHERE name = 'expired'",
        [],
        |row| row.get(0),
    )?;
    assert_eq!(count, 0);

    Ok(())
}

#[test]
fn negative_expiries_count_as_expired() -> Result<(), Box<dyn Error>> {
    // an expiry other than zero that lies in the past is expired, whatever
    // its sign; zero and absent expiries never are
    let dir = tempdir()?;
    let db = ZoomDb::new(dir.path().to_str().unwrap()).map_err(|e| e.detail)?;
    let cookies = vec![
        cookie("negative", "1", Some(-5)),
        cookie("session", "2", Some(0)),
        cookie("absent", "3", None),
    ];
    db.replace_cookies(&cookies).map_err(|e| e.detail)?;
    let (_, loaded) = db.load_cookies().map_err(|e| e.detail)?;
    let mut names: Vec<&str> = loaded.iter().map(|c| c.name.as_str()).collect();
    names.sort();
    assert_eq!(names, vec!["absent", "session"]);
    let conn = Connection::open(dir.path().join("zoom_state.sqlite"))?;
    let count: i64 = conn.query_row(
        "SELECT COUNT(*) FROM zoom_cookie WHERE name = 'negative'",
        [],
        |row| row.get(0),
    )?;
    assert_eq!(count, 0);
    Ok(())
}

#[test]
fn replace_cookies_keeps_only_second_set() -> Result<(), Box<dyn Error>> {
    let dir = tempdir()?;
    let db = ZoomDb::new(dir.path().to_str().unwrap()).map_err(|e| e.detail)?;

    let first = vec![cookie("alpha", "1", None), cookie("beta", "2", None)];
    let second = vec![cookie("gamma", "3", None), cookie("delta", "4", None)];

    db.replace_cookies(&first).map_err(|e| e.detail)?;
    db.replace_cookies(&second).map_err(|e| e.detail)?;

    let (_, loaded) = db.load_cookies().map_err(|e| e.detail)?;
    let mut names: Vec<&str> = loaded.iter().map(|c| c.name.as_str()).collect();
    names.sort();
    assert_eq!(names, vec!["delta", "gamma"]);
    Ok(())
}

#[test]
fn scid_roundtrip() -> Result<(), Box<dyn Error>> {
    let dir = tempdir()?;
    let db = ZoomDb::new(dir.path().to_str().unwrap()).map_err(|e| e.detail)?;
    assert!(db.get_scid(42).map_err(|e| e.detail)?.is_none());
    db.save_scid(42, "tok-123").map_err(|e| e.detail)?;
    assert_eq!(db.get_scid(42).map_err(|e| e.detail)?.as_deref(), Some("tok-123"));
    db.save_scid(42, "tok-456").map_err(|e| e.detail)?;
    assert_eq!(db.get_scid(42).map_err(|e| e.detail)?.as_deref(), Some("tok-456"));
    assert!(db.get_scid(7).map_err(|e| e.detail)?.is_none());
    Ok(())
}

#[test]
fn request_headers_replace_per_path() -> Result<(), Box<dyn Error>> {
    let dir = tempdir()?;
    let db = ZoomDb::new(dir.path().to_str().unwrap()).map_err(|e| e.detail)?;
    let first = vec![("x-zm-aid".to_string(), "a1".to_string())];
    let second = vec![
        ("x-zm-haid".to_string(), "h1".to_string()),
        ("x-xsrf-token".to_string(), "t1".to_string()),
    ];
    db.save_request_headers(9, "/api/v1/lti/rich/recording", &first)
        .map_err(|e| e.detail)?;
    db.save_request_headers(9, "/api/v1/lti/rich/recording", &second)
        .map_err(|e| e.detail)?;
    let mut all = db.get_all_request_headers(9).map_err(|e| e.detail)?;
    all.sort();
    assert_eq!(
        all,
        vec![
            ("x-xsrf-token".to_string(), "t1".to_string()),
            ("x-zm-haid".to_string(), "h1".to_string()),
        ]
    );
    Ok(())
}

#[test]
fn replay_headers_roundtrip() -> Result<(), Box<dyn Error>> {
    let dir = tempdir()?;
    let db = ZoomDb::new(dir.path().to_str().unwrap()).map_err(|e| e.detail)?;
    let asset = zoomcap::models::ReplayHeader {
        download_url: "https://ssrweb.zoom.us/rec/a.mp4?sig=1".to_string(),
        headers: vec![
            ("referer".to_string(), "https://applications.zoom.us/play/x".to_string()),
            ("user-agent".to_string(), "Mozilla/5.0 \"quoted\"".to_string()),
        ],
    };
    let entries = vec![("https://applications.zoom.us/play/x".to_string(), asset)];
    db.save_replay_headers(3, &entries).map_err(|e| e.detail)?;
    let loaded = db.load_replay_headers(3).map_err(|e| e.detail)?;
    assert_eq!(loaded.len(), 1);
    assert_eq!(loaded[0].0, "https://applications.zoom.us/play/x");
    assert_eq!(loaded[0].1.download_url, "https://ssrweb.zoom.us/rec/a.mp4?sig=1");
    assert_eq!(loaded[0].1.headers, entries_headers());
    Ok(())
}

fn entries_headers() -> Vec<(String, String)> {
    vec![
        ("referer".to_string(), "https://applications.zoom.us/play/x".to_string()),
        ("user-agent".to_string(), "Mozilla/5.0 \"quoted\"".to_string()),
    ]
}

#[test]
fn malformed_cached_blob_is_a_storage_error() -> Result<(), Box<dyn Error>> {
    let dir = tempdir()?;
    let db = ZoomDb::new(dir.path().to_str().unwrap()).map_err(|e| e.detail)?;
    let conn = Connection::open(dir.path().join("zoom_state.sqlite"))?;
    conn.execute(
        "INSERT INTO zoom_replay_headers(course_id, referer, download_url, headers, updated_at) \
         VALUES ('8', 'r', 'u', 'not a payload', 0)",
        [],
    )?;
    assert!(db.load_replay_headers(8).is_err());
    Ok(())
}

#[test]
fn meetings_cache_roundtrip() -> Result<(), Box<dyn Error>> {
    let dir = tempdir()?;
    let db = ZoomDb::new(dir.path().to_str().unwrap()).map_err(|e| e.detail)?;
    let listing = zoomcap::models::RecordingListResponse {
        status: Some(true),
        code: Some(200),
        result: Some(zoomcap::models::RecordingsResult {
            page_num: Some(1),
            page_size: Some(2),
            total: Some(2),
            list: Some(vec![
                zoomcap::models::RecordingSummary {
                    meeting_id: "m-1".to_string(),
                    meeting_number: Some("111".to_string()),
                    topic: Some("Clase: Teoría".to_string()),
                    start_time: Some("2024-04-02 10:00".to_string()),
                    timezone: None,
                },
                zoomcap::models::RecordingSummary {
                    meeting_id: "m-2".to_string(),
                    meeting_number: None,
                    topic: None,
                    start_time: None,
                    timezone: Some("America/Santiago".to_string()),
                },
            ]),
        }),
    };
    db.save_meetings(5, &listing).map_err(|e| e.detail)?;
    let cached = db.load_meeting_payloads(5).map_err(|e| e.detail)?;
    assert_eq!(cached.len(), 2);
    let m1 = cached.iter().find(|m| m.meeting_id == "m-1").unwrap();
    assert_eq!(m1.topic.as_deref(), Some("Clase: Teoría"));
    assert_eq!(m1.start_time.as_deref(), Some("2024-04-02 10:00"));
    let m2 = cached.iter().find(|m| m.meeting_id == "m-2").unwrap();
    assert!(m2.topic.is_none());
    assert_eq!(m2.timezone.as_deref(), Some("America/Santiago"));
    Ok(())
}
