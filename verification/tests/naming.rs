use zoomcap::config::{expand_tilde, Config};
use zoomcap::download::{after_tool_failure, build_ffmpeg_headers, resume_headers, TransferDecision};
use zoomcap::ffmpeg::{header_blob, interpret_tool_outcome, tool_args, FfmpegError, ToolOutcome};
use zoomcap::fsnames::{sanitize_component, sanitize_filename_preserve_ext};
use zoomcap::headers::{apply_or_replace, canonical_header_name, ensure_header, merge_headers_into, should_skip_header};
use zoomcap::jsonpayload::{decode_object, encode_object};
use zoomcap::models::{ReplayHeader, ZoomCookie, ZoomRecordingFile};
use zoomcap::pipeline::{derived_name, plan_downloads, unique_names, ItemOutcome, PipelineTally};
use zoomcap::flow::{has_min_creds, plan_session, SessionPlan};
use zoomcap::state::{ItemState, State};
use zoomcap::download::temp_path;

fn file(meeting: &str, play: &str, topic: Option<&str>, start: Option<&str>) -> ZoomRecordingFile {
    ZoomRecordingFile {
        meeting_id: meeting.to_string(),
        play_url: play.to_string(),
        download_url: None,
        file_type: Some("MP4".to_string()),
        recording_start: None,
        topic: topic.map(|s| s.to_string()),
        start_time: start.map(|s| s.to_string()),
        timezone: None,
        meeting_number: None,
    }
}

#[test]
fn filename_hint_prefers_date_and_topic() {
    let f = file("m/1", "p", Some("Teoría de Grafos"), Some("2024-04-02 10:00:00"));
    assert_eq!(f.filename_hint(), "2024-04-02 - Teoría de Grafos");
    let only_topic = file("m/1", "p", Some("Topic"), None);
    assert_eq!(only_topic.filename_hint(), "Topic");
    let only_start = file("m/1", "p", None, Some("2024-04-02 10:00:00"));
    assert_eq!(only_start.filename_hint(), "2024-04-02");
    let neither = file("m/1", "p", None, None);
    assert_eq!(neither.filename_hint(), "zoom-m_1");
}

#[test]
fn sanitized_names_are_strict_ascii() {
    assert_eq!(sanitize_component("  Canción: Teoría / práctica  "), "Cancion_Teoria_practica");
    assert_eq!(sanitize_component(""), "untitled");
    assert_eq!(sanitize_component("///"), "untitled");
    assert_eq!(
        sanitize_filename_preserve_ext("2024-04-02 - Teoría.MP4"),
        "2024_04_02_Teoria.mp4"
    );
    assert_eq!(sanitize_filename_preserve_ext("...."), "untitled");
    assert_eq!(sanitize_filename_preserve_ext("noext"), "noext");
}

#[test]
fn rerun_skips_existing_files_entirely() {
    let a = file("m1", "pa", Some("Alpha"), Some("2024-04-02 10:00"));
    let b = file("m2", "pb", Some("Beta"), Some("2024-04-03 10:00"));
    let name_a = derived_name(&a);
    assert_eq!(name_a, "2024_04_02_Alpha.mp4");

    let files = vec![a.clone(), b.clone()];
    let existing = vec![name_a.clone()];
    let planned = plan_downloads(&files, &existing);
    // the recording whose file already exists is skipped; nothing at all
    // — no task, no traffic — is planned for it
    assert_eq!(planned.len(), 1);
    assert_eq!(planned[0], b);

    let planned_fresh = plan_downloads(&files, &Vec::new());
    assert_eq!(planned_fresh.len(), 2);
}

#[test]
fn clashing_names_get_numbered_suffixes() {
    let names = vec![
        "a.mp4".to_string(),
        "b.mp4".to_string(),
        "a.mp4".to_string(),
        "a.mp4".to_string(),
    ];
    assert_eq!(
        unique_names(&names),
        vec![
            "a.mp4".to_string(),
            "b.mp4".to_string(),
            "a_1.mp4".to_string(),
            "a_2.mp4".to_string(),
        ]
    );
}

#[test]
fn tool_failure_falls_back_to_http_with_same_headers() {
    // only a non-zero exit of the tool triggers the HTTP path
    let process = FfmpegError::Process { code: Some(1), message: "boom".to_string() };
    assert!(matches!(after_tool_failure(&process), TransferDecision::HttpFallback));
    let missing = FfmpegError::NotFound("ffmpeg".to_string());
    assert!(matches!(after_tool_failure(&missing), TransferDecision::Fail));

    // the HTTP path carries the identical header set, minus anything that
    // conflicts with a resumed Range request
    let captured = vec![
        ("Authorization".to_string(), "Bearer x".to_string()),
        ("RANGE".to_string(), "bytes=0-100".to_string()),
        ("Cookie".to_string(), "k=v".to_string()),
    ];
    let fresh = resume_headers(&captured, 0);
    assert_eq!(
        fresh,
        vec![
            ("Authorization".to_string(), "Bearer x".to_string()),
            ("Cookie".to_string(), "k=v".to_string()),
        ]
    );
    let resumed = resume_headers(&captured, 1024);
    assert_eq!(resumed.last().unwrap(), &("Range".to_string(), "bytes=1024-".to_string()));
    assert_eq!(&resumed[..2], &fresh[..]);
}

#[test]
fn tool_outcomes_map_to_errors() {
    assert!(interpret_tool_outcome("ffmpeg", ToolOutcome::Exited { success: true, code: Some(0), stderr: String::new() }).is_ok());
    match interpret_tool_outcome("ffmpeg", ToolOutcome::Exited { success: false, code: Some(8), stderr: "bad".into() }) {
        Err(FfmpegError::Process { code, message }) => {
            assert_eq!(code, Some(8));
            assert_eq!(message, "bad");
        }
        other => panic!("unexpected: {:?}", other),
    }
    match interpret_tool_outcome("/opt/ffmpeg", ToolOutcome::MissingBinary) {
        Err(FfmpegError::NotFound(p)) => assert_eq!(p, "/opt/ffmpeg"),
        other => panic!("unexpected: {:?}", other),
    }
    assert!(matches!(
        interpret_tool_outcome("ffmpeg", ToolOutcome::LaunchFailure("denied".into())),
        Err(FfmpegError::Io(_))
    ));
}

#[test]
fn transfer_headers_carry_matching_cookies() {
    let asset = ReplayHeader {
        download_url: "https://ssrweb.zoom.us/rec/a.mp4?sig=1".to_string(),
        headers: vec![("referer".to_string(), "https://applications.zoom.us/p".to_string())],
    };
    let cookies = vec![
        ZoomCookie {
            domain: ".zoom.us".to_string(),
            name: "a".to_string(),
            value: "1".to_string(),
            path: "/".to_string(),
            expires: None,
            secure: true,
            http_only: false,
        },
        ZoomCookie {
            domain: "elsewhere.example".to_string(),
            name: "b".to_string(),
            value: "2".to_string(),
            path: "/".to_string(),
            expires: None,
            secure: false,
            http_only: false,
        },
        ZoomCookie {
            domain: "ssrweb.zoom.us".to_string(),
            name: "c".to_string(),
            value: "3".to_string(),
            path: "/".to_string(),
            expires: None,
            secure: false,
            http_only: false,
        },
    ];
    let headers = build_ffmpeg_headers(&asset, &cookies, &asset.download_url);
    assert_eq!(headers.len(), 2);
    assert_eq!(headers[1], ("Cookie".to_string(), "a=1; c=3".to_string()));

    let none = build_ffmpeg_headers(&asset, &Vec::new(), &asset.download_url);
    assert_eq!(none.len(), 1);
}

#[test]
fn tool_command_line_is_exact() {
    let headers = vec![("Referer".to_string(), "https://x/".to_string())];
    assert_eq!(header_blob(&headers), "Referer: https://x/\r\n");
    let args = tool_args(&headers, "https://u/a.mp4", "/tmp/a.mp4.part");
    assert_eq!(
        args,
        vec![
            "-y", "-loglevel", "error", "-hide_banner", "-headers",
            "Referer: https://x/\r\n", "-i", "https://u/a.mp4", "-c", "copy",
            "-map", "0", "-movflags", "+faststart", "/tmp/a.mp4.part",
        ]
        .into_iter()
        .map(|s| s.to_string())
        .collect::<Vec<String>>()
    );
    assert_eq!(temp_path("/d/x.mp4"), "/d/x.mp4.part");
}

#[test]
fn header_sets_merge_case_insensitively() {
    let mut target: Vec<(String, String)> = Vec::new();
    let incoming = vec![
        ("X-Zm-Aid".to_string(), "a1".to_string()),
        ("Content-Length".to_string(), "17".to_string()),
        (":authority".to_string(), "x".to_string()),
        ("x-zm-aid".to_string(), "a2".to_string()),
    ];
    merge_headers_into(&mut target, &incoming);
    assert_eq!(target, vec![("x-zm-aid".to_string(), "a2".to_string())]);

    let mut hs = vec![("Accept".to_string(), "*/*".to_string())];
    apply_or_replace(&mut hs, "ACCEPT", "text/html");
    assert_eq!(hs, vec![("Accept".to_string(), "text/html".to_string())]);
    ensure_header(&mut hs, "accept", "ignored");
    assert_eq!(hs.len(), 1);
    ensure_header(&mut hs, "Referer", "https://x/");
    assert_eq!(hs[1], ("Referer".to_string(), "https://x/".to_string()));

    assert_eq!(canonical_header_name("x-zm-cluster-id"), "X-Zm-Cluster-Id");
    assert!(should_skip_header("Content-Length"));
    assert!(!should_skip_header("Referer"));
}

#[test]
fn payload_objects_roundtrip() {
    let pairs = vec![
        ("plain".to_string(), Some("value".to_string())),
        ("quoted".to_string(), Some("a \"b\" \\ c".to_string())),
        ("control".to_string(), Some("line\nbreak".to_string())),
        ("absent".to_string(), None),
    ];
    let text = encode_object(&pairs);
    assert_eq!(decode_object(&text), Some(pairs));
    assert_eq!(decode_object("{}"), Some(Vec::new()));
    assert_eq!(decode_object("{"), None);
    assert_eq!(decode_object("{\"a\":1}"), None);
    assert_eq!(decode_object("trailing{}"), None);
}

#[test]
fn state_returns_latest_record() {
    let mut st = State::new();
    assert!(st.get("k").is_none());
    let rec = ItemState {
        etag: Some("e1".to_string()),
        updated_at: None,
        size: Some(10),
        content_hash: None,
        last_error: None,
        error_count: None,
    };
    st.set("k".to_string(), rec);
    let mut rec2 = ItemState {
        etag: Some("e2".to_string()),
        updated_at: None,
        size: Some(11),
        content_hash: None,
        last_error: None,
        error_count: Some(1),
    };
    st.set("k".to_string(), rec2.clone());
    rec2.etag = Some("e2".to_string());
    assert_eq!(st.get("k").unwrap().etag.as_deref(), Some("e2"));
    assert_eq!(st.get("k").unwrap().size, Some(11));
    assert!(st.get("other").is_none());
}

#[test]
fn run_accounting_and_session_plan() {
    let mut tally = PipelineTally::new();
    tally.note(ItemOutcome::AlreadyPresent);
    tally.note(ItemOutcome::CaptureTimeout);
    tally.note(ItemOutcome::TransferFailure);
    tally.note(ItemOutcome::Downloaded);
    assert_eq!((tally.skipped, tally.failed, tally.succeeded), (1, 2, 1));
    assert!(tally.covers(4));
    assert!(!tally.covers(5));

    let headers = vec![
        ("X-XSRF-TOKEN".to_string(), "t".to_string()),
        ("x-zm-aid".to_string(), "a".to_string()),
        ("x-zm-cluster-id".to_string(), "c".to_string()),
        ("x-zm-haid".to_string(), "h".to_string()),
    ];
    assert!(has_min_creds(&Some("tok".to_string()), 3, &headers));
    assert!(!has_min_creds(&None, 3, &headers));
    assert!(!has_min_creds(&Some("tok".to_string()), 0, &headers));
    assert!(!has_min_creds(&Some("tok".to_string()), 3, &headers[..3].to_vec()));
    assert_eq!(plan_session(true, true), SessionPlan::UseCached);
    assert_eq!(plan_session(true, false), SessionPlan::Acquire);
    assert_eq!(plan_session(false, true), SessionPlan::Acquire);
}

#[test]
fn config_validation_names_missing_fields() {
    let mut cfg = Config::default();
    // the example is rejected until its placeholders are edited
    match cfg.postprocess_and_validate() {
        Err(zoomcap::config::ConfigError::MissingFields(fields)) => {
            assert!(fields.contains(&"canvas.base_url".to_string()));
            assert!(fields.contains(&"canvas.token or canvas.token_cmd".to_string()));
        }
        other => panic!("unexpected: {:?}", other.err()),
    }
    cfg.canvas.base_url = "https://school.instructure.com".to_string();
    cfg.canvas.token = Some("pat-1".to_string());
    assert!(cfg.postprocess_and_validate().is_ok());

    assert_eq!(expand_tilde("~/data/x", "/home/u"), "/home/u/data/x");
    assert_eq!(expand_tilde("/abs/x", "/home/u"), "/abs/x");
    let mut cfg2 = Config::default();
    cfg2.expand_paths(&Some("/home/u".to_string()));
    assert_eq!(cfg2.download_root, "/home/u/Documents/UNAB/data/Canvas");
    assert_eq!(zoomcap::config::effective_user_agent(&cfg2), "Mozilla/5.0");
    cfg2.zoom.user_agent = String::new();
    assert_eq!(zoomcap::config::effective_user_agent(&cfg2), "u_crawler/0.1.0");
}
