use vdl::server::{SessionEvent, SessionRecord};
use vdl::commands::Platform;
use vdl::config::{Config, PlatformQuality};
use vdl::server::{
    cancel_response, validate_config_update, validate_download_request, validate_metadata_request,
    validate_session_request, eviction_plan, format_eta, is_loopback, newest_first, ApiError,
    ClientMessage, ClientReply, SessionEntry, SessionStatus, Subscriptions, MAX_FINISHED_SESSIONS,
};
use vdl::server::{finish_session, progress_text, DriveOutcome, FinalEvent};

fn sample_config() -> Config {
    Config {
        download_path: "~/Downloads/vdl".to_string(),
        default_format: "mp4".to_string(),
        default_video_quality: "1080".to_string(),
        platform_quality: PlatformQuality {
            youtube: "1080".to_string(),
            tiktok: "best".to_string(),
            instagram: "best".to_string(),
            twitter: "best".to_string(),
            spotify: "best".to_string(),
        },
        bins_dir: "~/.local/share/vdl/bins".to_string(),
        cookies_file: None,
        cookies_from_browser: None,
        confirm_before_download: true,
        search_results_count: 8,
        termux_mode: false,
        no_progress: true,
    }
}

fn apply_plan(entries: &[SessionEntry], plan: &[u128]) -> Vec<SessionEntry> {
    entries.iter().copied().filter(|e| !plan.contains(&e.id)).collect()
}

#[test]
fn format_eta_renders_minutes_and_seconds() {
    assert_eq!(format_eta(Some(75)), "01:15");
    assert_eq!(format_eta(Some(5)), "00:05");
    assert_eq!(format_eta(None), "--:--");
}

#[test]
fn format_eta_keeps_long_minutes() {
    assert_eq!(format_eta(Some(6000)), "100:00");
}

#[test]
fn loopback_hosts_are_recognised() {
    assert!(is_loopback("127.0.0.1"));
    assert!(is_loopback("localhost"));
    assert!(is_loopback("::1"));
    assert!(!is_loopback("0.0.0.0"));
    assert!(!is_loopback("192.168.1.10"));
}

#[test]
fn session_statuses_render_lowercase() {
    assert_eq!(SessionStatus::Merging.as_str(), "merging");
    assert_eq!(SessionStatus::FetchingMetadata.as_str(), "fetching_metadata");
    assert!(SessionStatus::Cancelled.is_finished());
    assert!(SessionStatus::Error.is_finished());
    assert!(SessionStatus::Complete.is_finished());
    assert!(!SessionStatus::Pending.is_finished());
    assert!(!SessionStatus::Downloading.is_finished());
}

#[test]
fn eviction_keeps_only_the_newest_finished_sessions() {
    let entries: Vec<SessionEntry> = (0..60u64)
        .map(|offset| SessionEntry {
            id: 1000 + offset as u128,
            status: SessionStatus::Complete,
            created_at: offset,
        })
        .collect();
    let plan = eviction_plan(&entries);
    let remaining = apply_plan(&entries, &plan);
    assert_eq!(remaining.len(), MAX_FINISHED_SESSIONS);
    let oldest_remaining = remaining
        .iter()
        .map(|e| e.created_at)
        .min()
        .expect("sessions should not be empty");
    assert_eq!(oldest_remaining, 10);
}

#[test]
fn eviction_never_removes_active_sessions() {
    let entries: Vec<SessionEntry> = (0..60u64)
        .map(|offset| SessionEntry {
            id: offset as u128,
            status: SessionStatus::Downloading,
            created_at: offset,
        })
        .collect();
    let plan = eviction_plan(&entries);
    assert!(plan.is_empty());
    assert_eq!(apply_plan(&entries, &plan).len(), 60);
}

#[test]
fn eviction_mixes_active_and_finished() {
    let mut entries = Vec::new();
    for k in 0..120u64 {
        let status = if k % 2 == 0 { SessionStatus::Error } else { SessionStatus::Merging };
        entries.push(SessionEntry { id: k as u128, status, created_at: 500 - k });
    }
    let plan = eviction_plan(&entries);
    assert_eq!(plan.len(), 10);
    let remaining = apply_plan(&entries, &plan);
    assert_eq!(remaining.iter().filter(|e| !e.status.is_finished()).count(), 60);
    assert_eq!(remaining.iter().filter(|e| e.status.is_finished()).count(), 50);
    for id in &plan {
        assert!(*id >= 100 && id % 2 == 0);
    }
}

#[test]
fn downloads_are_listed_newest_first() {
    assert_eq!(newest_first(&vec![5, 9, 5, 1, 9]), vec![1, 4, 0, 2, 3]);
    assert_eq!(newest_first(&vec![]), Vec::<usize>::new());
}

#[test]
fn api_errors_carry_status_codes() {
    let e = ApiError::unprocessable("bad");
    assert_eq!((e.status, e.message.as_str()), (422, "bad"));
    assert_eq!(ApiError::internal("x").status, 500);
    assert_eq!(ApiError::not_found("x").status, 404);
    assert_eq!(ApiError::new(418, "teapot").status, 418);
}

#[test]
fn start_download_request_validation() {
    let err = validate_download_request(Platform::YouTube, None, false).unwrap_err();
    assert_eq!((err.status, err.message.as_str()), (422, "Field \"url\" is required."));
    let err = validate_download_request(Platform::YouTube, Some("  "), false).unwrap_err();
    assert_eq!(err.status, 422);
    let err = validate_download_request(Platform::YouTube, Some("https://e.com/v"), true).unwrap_err();
    assert_eq!(err.message, "Clipping is not yet supported.");
    let err =
        validate_download_request(Platform::Spotify, Some("https://open.spotify.com/track/abc"), false)
            .unwrap_err();
    assert_eq!((err.status, err.message.as_str()), (422, "Spotify downloads are not yet supported via the web API."));
    assert_eq!(
        validate_download_request(Platform::YouTube, Some("https://example.com/watch?v=test"), false).unwrap(),
        "https://example.com/watch?v=test"
    );
}

#[test]
fn session_request_checks_clip_before_url() {
    assert_eq!(validate_session_request(None, true).unwrap_err(), "Clipping is not yet supported.");
    assert_eq!(validate_session_request(Some(""), false).unwrap_err(), "Field \"url\" is required.");
    assert_eq!(validate_session_request(Some("u"), false).unwrap(), "u");
}

#[test]
fn metadata_and_cancel_validation() {
    assert!(validate_metadata_request("https://e.com").is_ok());
    let err = validate_metadata_request(" ").unwrap_err();
    assert_eq!((err.status, err.message.as_str()), (422, "Field \"url\" is required."));
    assert!(cancel_response(true).is_ok());
    let err = cancel_response(false).unwrap_err();
    assert_eq!((err.status, err.message.as_str()), (404, "Session not found."));
}

#[test]
fn config_update_rejects_conflicting_cookie_settings() {
    let mut cfg = sample_config();
    assert!(validate_config_update(&cfg).is_ok());
    cfg.cookies_file = Some("~/cookies.txt".to_string());
    cfg.cookies_from_browser = Some("firefox".to_string());
    let err = validate_config_update(&cfg).unwrap_err();
    assert_eq!(err.status, 422);
    assert!(err.message.contains("mutually exclusive"));
}

#[test]
fn ping_is_answered_with_pong() {
    let mut subs = Subscriptions::new();
    assert_eq!(subs.handle(ClientMessage::Ping), ClientReply::Pong);
}

#[test]
fn subscribed_sessions_are_forwarded() {
    let mut subs = Subscriptions::new();
    let watched = 7u128;
    let ignored = 8u128;
    assert_eq!(subs.handle(ClientMessage::Subscribe(watched)), ClientReply::NoReply);
    assert!(subs.forwards(watched));
    assert!(!subs.forwards(ignored));
    subs.handle(ClientMessage::Unsubscribe(watched));
    assert!(!subs.forwards(watched));
    subs.handle(ClientMessage::Unsubscribe(ignored));
    assert!(!subs.forwards(ignored));
}

#[test]
fn completed_download_finishes_with_its_output_path() {
    let (status, event) = finish_session(DriveOutcome::Completed("/tmp/a.mp4".to_string()));
    assert_eq!(status, SessionStatus::Complete);
    assert!(status.is_finished());
    match event {
        FinalEvent::Complete { output_path } => assert_eq!(output_path, "/tmp/a.mp4"),
        other => panic!("expected a Complete event, got {other:?}"),
    }
}

#[test]
fn cancelled_download_finishes_with_an_error_event() {
    let (status, event) = finish_session(DriveOutcome::Cancelled);
    assert_eq!(status, SessionStatus::Cancelled);
    assert!(status.is_finished());
    match event {
        FinalEvent::Error { message } => assert_eq!(message, "cancelled by user"),
        other => panic!("expected an Error event, got {other:?}"),
    }
}

#[test]
fn failed_download_keeps_its_message() {
    let (status, event) = finish_session(DriveOutcome::Failed("network down".to_string()));
    assert_eq!(status, SessionStatus::Error);
    assert!(status.is_finished());
    match event {
        FinalEvent::Error { message } => assert_eq!(message, "network down"),
        other => panic!("expected an Error event, got {other:?}"),
    }
}

#[test]
fn progress_text_renders_speed_eta_and_size() {
    let text = progress_text(1_536, Some(75), 5 * 1024 * 1024);
    assert_eq!(text.speed, "1.5 KB/s");
    assert_eq!(text.eta, "01:15");
    assert_eq!(text.size, "5.0 MB");

    let unknown = progress_text(0, None, 999);
    assert_eq!(unknown.speed, "0 B/s");
    assert_eq!(unknown.eta, "--:--");
    assert_eq!(unknown.size, "999 B");
}

#[test]
fn session_record_follows_the_lifecycle() {
    let mut record = SessionRecord::pending();
    assert_eq!(record.status, SessionStatus::Pending);
    assert!(record.apply(SessionEvent::MetadataRequested).is_none());
    assert_eq!(record.status, SessionStatus::FetchingMetadata);
    assert!(record.apply(SessionEvent::DownloadStarted).is_none());
    assert_eq!(record.status, SessionStatus::Downloading);
    assert!(record.apply(SessionEvent::PostProcessStarted).is_none());
    assert_eq!(record.status, SessionStatus::Merging);
    assert_eq!(record.error_message, None);
    match record.apply(SessionEvent::Finished(DriveOutcome::Failed("boom".to_string()))) {
        Some(FinalEvent::Error { message }) => assert_eq!(message, "boom"),
        other => panic!("expected an Error event, got {other:?}"),
    }
    assert_eq!(record.status, SessionStatus::Error);
    assert_eq!(record.error_message.as_deref(), Some("boom"));

    let mut done = SessionRecord::pending();
    match done.apply(SessionEvent::Finished(DriveOutcome::Completed("/tmp/v.mp4".to_string()))) {
        Some(FinalEvent::Complete { output_path }) => assert_eq!(output_path, "/tmp/v.mp4"),
        other => panic!("expected a Complete event, got {other:?}"),
    }
    assert_eq!(done.status, SessionStatus::Complete);
    assert_eq!(done.error_message, None);

    let mut cancelled = SessionRecord::pending();
    cancelled.apply(SessionEvent::Finished(DriveOutcome::Cancelled));
    assert_eq!(cancelled.status, SessionStatus::Cancelled);
    assert_eq!(cancelled.error_message.as_deref(), Some("cancelled by user"));
}
