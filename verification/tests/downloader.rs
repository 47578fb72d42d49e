use vdl::config::{Config, PlatformQuality};
use vdl::downloader::{cookie_source, cookie_source_with, normalized_browser_name, CookieSource};

fn test_config() -> Config {
    Config {
        download_path: "~/Downloads/vdl".to_string(),
        default_format: "mp4".to_string(),
        default_video_quality: "1080".to_string(),
        platform_quality: PlatformQuality {
            youtube: "1080".to_string(),
            tiktok: "720".to_string(),
            instagram: "720".to_string(),
            twitter: "720".to_string(),
            spotify: "best".to_string(),
        },
        bins_dir: "~/.local/share/vdl/bins".to_string(),
        cookies_file: Some("~/.config/vdl/cookies.txt".to_string()),
        cookies_from_browser: None,
        confirm_before_download: true,
        search_results_count: 8,
        termux_mode: false,
        no_progress: false,
    }
}

#[test]
fn normalizes_optional_browser_names() {
    assert_eq!(
        normalized_browser_name(Some(" chrome ")),
        Some("chrome".to_string())
    );
    assert_eq!(normalized_browser_name(Some("   ")), None);
    assert_eq!(normalized_browser_name(None), None);
}

#[test]
fn cookie_source_picks_file_or_browser() {
    let home = Some("/home/u".to_string());
    let cfg = test_config();
    assert!(matches!(
        cookie_source_with(&cfg, &home),
        Ok(CookieSource::File(f)) if f == "/home/u/.config/vdl/cookies.txt"
    ));
    let mut browser = test_config();
    browser.cookies_file = None;
    browser.cookies_from_browser = Some(" firefox ".to_string());
    assert!(matches!(cookie_source_with(&browser, &home), Ok(CookieSource::Browser(b)) if b == "firefox"));
    let mut neither = test_config();
    neither.cookies_file = None;
    neither.cookies_from_browser = Some("  ".to_string());
    assert!(matches!(cookie_source_with(&neither, &home), Ok(CookieSource::NoCookies)));
}

#[test]
fn cookie_source_rejects_both_settings() {
    let home = Some("/home/u".to_string());
    let mut both = test_config();
    both.cookies_from_browser = Some("brave".to_string());
    let err = cookie_source_with(&both, &home).unwrap_err();
    assert_eq!(
        err.message(),
        "Config options cookies_file (/home/u/.config/vdl/cookies.txt) and cookies_from_browser (brave) are mutually exclusive"
    );
    assert!(cookie_source(&both).is_err());
}
