use vdl::commands::render::sanitise_filename_with;
use vdl::cli::{CommonArgs, SpotifyArgs};
use vdl::commands::render::{
    audio_codec_for_format, download_filename, format_playlist_duration, format_size, map_quality,
    needs_confirmation, sanitise_filename, youtube_watch_url, AudioCodec, VideoQuality,
};
use vdl::commands::render::{download_plan, DownloadPlan};
use vdl::commands::CommonRequest;
use vdl::commands::{
    ensure_search_supported, ensure_valid_common_format, ensure_valid_quality,
    ensure_valid_spotify_format, expand_user_path, is_audio_format, normalize_common_args,
    normalize_optional_text, normalize_spotify_args, resolve_output_dir, NormalizeError, PathEnv,
    Platform,
};
use vdl::config::{Config, PlatformQuality};

fn test_config() -> Config {
    Config {
        download_path: "~/Downloads/vdl".to_string(),
        default_format: "mp4".to_string(),
        default_video_quality: "1080".to_string(),
        platform_quality: PlatformQuality {
            youtube: "1080".to_string(),
            tiktok: "720".to_string(),
            instagram: "720".to_string(),
            twitter: "720".to_string(),
            spotify: "best".to_string(),
        },
        bins_dir: "~/.local/share/vdl/bins".to_string(),
        cookies_file: None,
        cookies_from_browser: None,
        confirm_before_download: true,
        search_results_count: 8,
        termux_mode: false,
        no_progress: false,
    }
}

fn env() -> PathEnv {
    PathEnv { home: Some("/home/alice".to_string()), cwd: Some("/work".to_string()) }
}

fn args() -> CommonArgs {
    CommonArgs {
        url: Some("https://example.com/watch?v=1".to_string()),
        quality: None,
        audio_only: false,
        video_only: false,
        format: None,
        output: None,
        search: None,
        yes: false,
    }
}

#[test]
fn map_quality_matches_expected_variants() {
    assert_eq!(map_quality("best"), VideoQuality::Best);
    assert_eq!(map_quality("1080"), VideoQuality::High);
    assert_eq!(map_quality("720"), VideoQuality::Medium);
    assert_eq!(map_quality("480"), VideoQuality::Low);
    assert_eq!(map_quality("360"), VideoQuality::CustomHeight(360));
    assert_eq!(map_quality("worst"), VideoQuality::Worst);
}

#[test]
fn map_quality_falls_back_to_best() {
    assert_eq!(map_quality("144"), VideoQuality::Best);
}

#[test]
fn sanitise_filename_replaces_invalid_chars_and_trims() {
    assert_eq!(
        sanitise_filename("  Rust: async/await? *guide*  "),
        "Rust_async_await_guide"
    );
    assert_eq!(sanitise_filename("___"), "download");
}

#[test]
fn sanitise_filename_keeps_unicode_letters_and_dashes() {
    assert_eq!(sanitise_filename("Café-Olé 2024"), "Café-Olé_2024");
    assert_eq!(sanitise_filename(""), "download");
    assert_eq!(sanitise_filename("a__b"), "a_b");
}

#[test]
fn sanitise_filename_stops_at_eighty_characters() {
    let title = "x".repeat(200);
    assert_eq!(sanitise_filename(&title), "x".repeat(80));
    let spaced = format!("{}   tail", "y".repeat(79));
    assert_eq!(sanitise_filename(&spaced), "y".repeat(79));
}

#[test]
fn sanitised_names_have_the_safe_shape() {
    for title in ["  Rust: async/await? *guide*  ", "a//b", "-x-", "((z))", "日本語 タイトル"] {
        let name = sanitise_filename(title);
        assert!(!name.is_empty());
        assert!(name.chars().count() <= 80);
        assert!(!name.starts_with('_') && !name.ends_with('_'));
        assert!(!name.contains("__"));
        assert!(name.chars().all(|c| c.is_alphanumeric() || c == '-' || c == '_'));
    }
}

#[test]
fn format_size_uses_human_units() {
    assert_eq!(format_size(999), "999 B");
    assert_eq!(format_size(1_536), "1.5 KB");
}

#[test]
fn format_size_renders_each_unit() {
    assert_eq!(format_size(0), "0 B");
    assert_eq!(format_size(1023), "1023 B");
    assert_eq!(format_size(1024), "1.0 KB");
    assert_eq!(format_size(10 * 1024), "10 KB");
    assert_eq!(format_size(5 * 1024 * 1024), "5.0 MB");
    assert_eq!(format_size(3 * 1024 * 1024 * 1024), "3.0 GB");
    assert_eq!(format_size(2048u64 * 1024 * 1024 * 1024), "2.0 TB");
    assert_eq!(format_size(2048u64 * 1024 * 1024 * 1024 * 1024), "2048 TB");
    assert_eq!(format_size(1280), "1.2 KB");
    assert_eq!(format_size(1_331), "1.3 KB");
}

fn float_format_size(bytes: u64) -> String {
    let units = ["B", "KB", "MB", "GB", "TB"];
    let mut size = bytes as f64;
    let mut index = 0usize;
    while size >= 1024.0 && index < units.len() - 1 {
        size /= 1024.0;
        index += 1;
    }
    if index == 0 {
        format!("{bytes} {}", units[index])
    } else if size >= 10.0 {
        format!("{size:.0} {}", units[index])
    } else {
        format!("{size:.1} {}", units[index])
    }
}

#[test]
fn format_size_agrees_with_float_rendering() {
    let mut samples: Vec<u64> = vec![
        1280, 1331, 1433, 10239, 10240, 10752, 11776, 1_048_575, 1_048_576, 9_999_999,
        u64::MAX, u64::MAX - 1, 1 << 53, (1 << 53) + 1, (1 << 63) + (1 << 39) + 1,
        (1 << 62) + (1 << 39), 123_456_789_012_345,
    ];
    for k in 0..4000u64 {
        samples.push(k * 97 + 1000);
        samples.push(k * 1024 + 512);
        samples.push((k + 1) * 104_857 + 51_200);
    }
    for bytes in samples {
        assert_eq!(format_size(bytes), float_format_size(bytes), "bytes = {bytes}");
    }
}

#[test]
fn playlist_duration_renders_hours_minutes_seconds() {
    assert_eq!(format_playlist_duration(Some(3725)), "1:02:05");
    assert_eq!(format_playlist_duration(Some(59)), "0:00:59");
    assert_eq!(format_playlist_duration(Some(360_000)), "100:00:00");
    assert_eq!(format_playlist_duration(None), "Unknown");
}

#[test]
fn download_filename_joins_title_and_format() {
    assert_eq!(download_filename("My Video!", "mp4"), "My_Video.mp4");
    assert_eq!(download_filename("", "mp3"), "download.mp3");
}

#[test]
fn watch_url_uses_video_id() {
    assert_eq!(youtube_watch_url("abc123"), "https://www.youtube.com/watch?v=abc123");
}

#[test]
fn confirmation_is_skipped_with_yes_or_config() {
    assert!(needs_confirmation(true, false));
    assert!(!needs_confirmation(true, true));
    assert!(!needs_confirmation(false, false));
}

#[test]
fn audio_codecs_follow_containers() {
    assert_eq!(audio_codec_for_format("mp3"), AudioCodec::Mp3);
    assert_eq!(audio_codec_for_format("m4a"), AudioCodec::Aac);
    assert_eq!(audio_codec_for_format("opus"), AudioCodec::Opus);
    assert_eq!(audio_codec_for_format("mp4"), AudioCodec::Any);
}

#[test]
fn platforms_have_labels_and_search_support() {
    assert_eq!(Platform::Twitter.label(), "Twitter/X");
    assert_eq!(Platform::YouTube.label(), "YouTube");
    assert!(Platform::YouTube.supports_search());
    assert!(!Platform::TikTok.supports_search());
    let cfg = test_config();
    assert_eq!(Platform::TikTok.quality_override(&cfg), Some("720"));
    assert_eq!(Platform::Spotify.quality_override(&cfg), Some("best"));
    assert!(ensure_search_supported(Platform::YouTube).is_ok());
    let err = ensure_search_supported(Platform::Instagram).unwrap_err();
    assert_eq!(
        err.message(),
        "Search is only supported for YouTube. Please provide a URL with --url."
    );
}

#[test]
fn optional_text_is_trimmed_or_dropped() {
    assert_eq!(normalize_optional_text(Some("  hi there ".to_string())), Some("hi there".to_string()));
    assert_eq!(normalize_optional_text(Some(" \t\n".to_string())), None);
    assert_eq!(normalize_optional_text(None), None);
}

#[test]
fn value_checks_accept_only_listed_values() {
    assert!(ensure_valid_quality("480").is_ok());
    assert_eq!(
        ensure_valid_quality("144").unwrap_err().message(),
        "Invalid quality \"144\". Expected one of: best, 1080, 720, 480, 360, worst."
    );
    assert!(ensure_valid_common_format("webm").is_ok());
    assert_eq!(ensure_valid_common_format("avi").unwrap_err().message(), "Invalid format \"avi\".");
    assert!(ensure_valid_spotify_format("opus").is_ok());
    assert_eq!(
        ensure_valid_spotify_format("mp4").unwrap_err().message(),
        "Spotify only supports mp3, m4a, or opus output."
    );
    assert!(is_audio_format("m4a"));
    assert!(!is_audio_format("mkv"));
}

#[test]
fn user_paths_expand_tilde_forms() {
    let home = Some("/home/alice".to_string());
    assert_eq!(expand_user_path("~".to_string(), &home), "/home/alice");
    assert_eq!(expand_user_path("~/Videos".to_string(), &home), "/home/alice/Videos");
    assert_eq!(expand_user_path("~\\Videos".to_string(), &home), "/home/alice/Videos");
    assert_eq!(expand_user_path("~bob".to_string(), &home), "~bob");
    assert_eq!(expand_user_path("~/x".to_string(), &None), "~/x");
}

#[test]
fn resolve_output_dir_expands_tilde_overrides() {
    let home = dirs::home_dir().expect("home dir should exist");
    let env = PathEnv::with_cwd(None);
    let output = resolve_output_dir(Some("~/Downloads/vdl".to_string()), String::new(), &env)
        .unwrap_or_else(|_| panic!("tilde output path should resolve"));
    assert_eq!(std::path::PathBuf::from(output), home.join("Downloads/vdl"));
}

#[test]
fn relative_output_dirs_resolve_against_cwd() {
    let e = env();
    assert_eq!(
        resolve_output_dir(Some("clips".to_string()), "/unused".to_string(), &e).unwrap(),
        "/work/clips"
    );
    assert_eq!(resolve_output_dir(None, "/abs".to_string(), &e).unwrap(), "/abs");
    let no_cwd = PathEnv { home: None, cwd: None };
    let err = resolve_output_dir(Some("rel".to_string()), String::new(), &no_cwd).unwrap_err();
    assert_eq!(err.message(), "Failed to resolve current working directory");
}

#[test]
fn common_request_uses_config_defaults() {
    let cfg = test_config();
    let req = normalize_common_args(Platform::TikTok, args(), &cfg, &env(), None).unwrap();
    assert_eq!(req.url.as_deref(), Some("https://example.com/watch?v=1"));
    assert_eq!(req.search, None);
    assert_eq!(req.quality, "720");
    assert_eq!(req.format, "mp4");
    assert_eq!(req.output_dir, "/home/alice/Downloads/vdl");
    assert!(!req.audio_only && !req.video_only && !req.yes);
}

#[test]
fn audio_only_defaults_to_mp3_and_audio_formats_imply_audio_only() {
    let cfg = test_config();
    let mut a = args();
    a.audio_only = true;
    let req = normalize_common_args(Platform::YouTube, a, &cfg, &env(), None).unwrap();
    assert_eq!(req.format, "mp3");
    assert!(req.audio_only);
    let mut b = args();
    b.format = Some("opus".to_string());
    let req = normalize_common_args(Platform::YouTube, b, &cfg, &env(), None).unwrap();
    assert!(req.audio_only);
}

#[test]
fn normalize_reports_each_conflict() {
    let cfg = test_config();
    let mut a = args();
    a.audio_only = true;
    a.video_only = true;
    let err = normalize_common_args(Platform::YouTube, a, &cfg, &env(), None).unwrap_err();
    assert_eq!(err.message(), "--audio-only and --video-only are mutually exclusive.");

    let mut b = args();
    b.video_only = true;
    b.format = Some("mp3".to_string());
    let err = normalize_common_args(Platform::YouTube, b, &cfg, &env(), None).unwrap_err();
    assert_eq!(err.message(), "--audio-only and --video-only are mutually exclusive.");

    let mut c = args();
    c.search = Some("rust".to_string());
    let err = normalize_common_args(Platform::YouTube, c, &cfg, &env(), None).unwrap_err();
    assert_eq!(err.message(), "--url and --search are mutually exclusive.");

    let mut d = args();
    d.quality = Some("144".to_string());
    assert!(matches!(
        normalize_common_args(Platform::YouTube, d, &cfg, &env(), None),
        Err(NormalizeError::InvalidQuality(q)) if q == "144"
    ));

    let mut e = args();
    e.format = Some("avi".to_string());
    assert!(matches!(
        normalize_common_args(Platform::YouTube, e, &cfg, &env(), None),
        Err(NormalizeError::InvalidFormat(f)) if f == "avi"
    ));
}

#[test]
fn missing_url_and_search_asks_for_a_query() {
    let cfg = test_config();
    let mut a = args();
    a.url = Some("   ".to_string());
    let err = normalize_common_args(Platform::YouTube, a.clone(), &cfg, &env(), None).unwrap_err();
    assert!(matches!(err, NormalizeError::NeedsSearchQuery));
    assert_eq!(err.message(), "Enter search query");
    let err = normalize_common_args(Platform::YouTube, a.clone(), &cfg, &env(), Some("  ".to_string()))
        .unwrap_err();
    assert_eq!(err.message(), "Search query cannot be empty.");
    let req = normalize_common_args(Platform::YouTube, a, &cfg, &env(), Some(" lofi ".to_string()))
        .unwrap();
    assert_eq!(req.search.as_deref(), Some(" lofi "));
    assert_eq!(req.url, None);
}

#[test]
fn prompt_answer_is_ignored_when_no_question_was_asked() {
    let cfg = test_config();
    let with_answer =
        normalize_common_args(Platform::YouTube, args(), &cfg, &env(), Some("x".to_string())).unwrap();
    assert_eq!(with_answer.search, None);
}

#[test]
fn spotify_request_defaults_and_prompts() {
    let cfg = test_config();
    let a = SpotifyArgs { url: None, output: Some("/music".to_string()), format: None, yes: true };
    let err = normalize_spotify_args(a.clone(), &cfg, &env(), None).unwrap_err();
    assert_eq!(err.message(), "Enter Spotify URL");
    let req = normalize_spotify_args(a, &cfg, &env(), Some("https://open.spotify.com/track/x".to_string()))
        .unwrap();
    assert_eq!(req.url, "https://open.spotify.com/track/x");
    assert_eq!(req.format, "mp3");
    assert_eq!(req.output_dir, "/music");
    assert!(req.yes);
    let b = SpotifyArgs {
        url: Some(" https://open.spotify.com/track/y ".to_string()),
        output: None,
        format: Some("mp4".to_string()),
        yes: false,
    };
    assert!(matches!(
        normalize_spotify_args(b, &cfg, &env(), None),
        Err(NormalizeError::InvalidSpotifyFormat)
    ));
}

fn resolved_request(format: &str, quality: &str, audio_only: bool, video_only: bool) -> CommonRequest {
    CommonRequest {
        url: Some("https://example.com/v".to_string()),
        search: None,
        quality: quality.to_string(),
        format: format.to_string(),
        output_dir: "/tmp".to_string(),
        audio_only,
        video_only,
        yes: false,
    }
}

#[test]
fn download_plan_follows_the_request_mode() {
    assert_eq!(
        download_plan(&resolved_request("m4a", "720", true, false)),
        DownloadPlan::AudioOnly(AudioCodec::Aac)
    );
    assert_eq!(
        download_plan(&resolved_request("mp4", "720", false, true)),
        DownloadPlan::VideoOnly(VideoQuality::Medium)
    );
    assert_eq!(
        download_plan(&resolved_request("mkv", "360", false, false)),
        DownloadPlan::Full(VideoQuality::CustomHeight(360))
    );
}

#[test]
fn resolved_requests_are_planned_by_mode() {
    let cfg = test_config();
    let mut a = args();
    a.audio_only = true;
    let req = normalize_common_args(Platform::YouTube, a, &cfg, &env(), None).unwrap();
    assert_eq!(download_plan(&req), DownloadPlan::AudioOnly(AudioCodec::Mp3));

    let mut b = args();
    b.format = Some("opus".to_string());
    let req = normalize_common_args(Platform::YouTube, b, &cfg, &env(), None).unwrap();
    assert_eq!(download_plan(&req), DownloadPlan::AudioOnly(AudioCodec::Opus));

    let mut c = args();
    c.video_only = true;
    let req = normalize_common_args(Platform::TikTok, c, &cfg, &env(), None).unwrap();
    assert_eq!(download_plan(&req), DownloadPlan::VideoOnly(VideoQuality::Medium));
}

#[test]
fn sanitising_twice_is_sanitising_once() {
    for title in ["  Rust: async/await? *guide*  ", "___", "", "a__b--c", "Ünïcödé títle!"] {
        let once = sanitise_filename(title);
        assert_eq!(sanitise_filename(&once), once);
    }
}

#[test]
fn sanitising_follows_the_character_answers() {
    assert_eq!(sanitise_filename_with("a b", &vec![true, false, true]), "a_b");
    assert_eq!(sanitise_filename_with("abc", &vec![false, false, false]), "download");
    assert_eq!(sanitise_filename_with("x-y", &vec![false, false, false]), "-");
    assert_eq!(sanitise_filename("a"), "a");
}
