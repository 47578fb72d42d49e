use vdl::commands::PathEnv;
use vdl::config::{Config, PlatformQuality};
use vdl::sandbox::{
    binary_path_in, bins_dir, executable_name, executable_name_for, ffmpeg_path, is_termux_with,
    termux_path_update, ytdlp_path,
};
use vdl::sandbox::{
    install_plan, update_step, InstallPlan, UpdateAction, UpdateEvent, UpdateFailure, UpdatePhase,
};

fn session_env() -> PathEnv {
    PathEnv::with_cwd(Some("/work".to_string()))
}

fn test_config() -> Config {
    Config {
        download_path: "~/Downloads/vdl".to_string(),
        default_format: "mp4".to_string(),
        default_video_quality: "1080".to_string(),
        platform_quality: PlatformQuality {
            youtube: "1080".to_string(),
            tiktok: "720".to_string(),
            instagram: "720".to_string(),
            twitter: "720".to_string(),
            spotify: "best".to_string(),
        },
        bins_dir: "~/.local/share/vdl/bins".to_string(),
        cookies_file: None,
        cookies_from_browser: None,
        confirm_before_download: true,
        search_results_count: 8,
        termux_mode: false,
        no_progress: false,
    }
}

#[test]
fn bins_dir_uses_expanded_config_path() {
    let cfg = test_config();
    assert_eq!(bins_dir(&cfg, &session_env()), cfg.bins_dir_expanded());
}

#[test]
fn sandbox_binary_paths_use_platform_filenames() {
    let cfg = test_config();
    let windows = std::path::MAIN_SEPARATOR == '\\';
    let expected_ytdlp = if windows { "yt-dlp.exe" } else { "yt-dlp" };
    let expected_ffmpeg = if windows { "ffmpeg.exe" } else { "ffmpeg" };

    assert_eq!(
        std::path::PathBuf::from(ytdlp_path(&cfg, &session_env())),
        std::path::PathBuf::from(bins_dir(&cfg, &session_env())).join(expected_ytdlp)
    );
    assert_eq!(
        std::path::PathBuf::from(ffmpeg_path(&cfg, &session_env())),
        std::path::PathBuf::from(bins_dir(&cfg, &session_env())).join(expected_ffmpeg)
    );
}

#[test]
fn executable_names_follow_the_platform() {
    assert_eq!(executable_name_for("yt-dlp", true), "yt-dlp.exe");
    assert_eq!(executable_name_for("yt-dlp", false), "yt-dlp");
    assert_eq!(executable_name("ffmpeg"), "ffmpeg");
    assert_eq!(binary_path_in("/opt/bins", "ffmpeg", false), "/opt/bins/ffmpeg");
    assert_eq!(binary_path_in("/opt/bins/", "yt-dlp", true), "/opt/bins/yt-dlp.exe");
}

#[test]
fn detects_termux_from_env_or_home_path() {
    assert!(is_termux_with(Some("0.118.0"), None));
    assert!(is_termux_with(
        None,
        Some("/data/data/com.termux/files/home".to_string())
    ));
    assert!(!is_termux_with(None, Some("/home/occ".to_string())));
    assert!(!is_termux_with(None, None));
}

#[test]
fn termux_path_is_prepended_once() {
    let bin = "/data/data/com.termux/files/usr/bin";
    assert_eq!(termux_path_update(""), Some(bin.to_string()));
    let updated = termux_path_update("/usr/bin:/bin").unwrap();
    assert_eq!(updated, format!("{bin}:/usr/bin:/bin"));
    assert_eq!(termux_path_update(&updated), None);
    assert_eq!(termux_path_update(&format!("/usr/bin:{bin}")), None);
    assert_eq!(
        termux_path_update(&format!("{bin}/x:/bin")),
        Some(format!("{bin}:{bin}/x:/bin"))
    );
}

#[test]
fn relative_sandbox_dirs_resolve_against_the_working_directory() {
    let mut cfg = test_config();
    cfg.bins_dir = "bins".to_string();
    let env = PathEnv { home: Some("/home/alice".to_string()), cwd: Some("/work".to_string()) };
    let windows = std::path::MAIN_SEPARATOR == '\\';
    assert_eq!(bins_dir(&cfg, &env), "/work/bins");
    let ytdlp = if windows { "/work/bins/yt-dlp.exe" } else { "/work/bins/yt-dlp" };
    let ffmpeg = if windows { "/work/bins/ffmpeg.exe" } else { "/work/bins/ffmpeg" };
    assert_eq!(ytdlp_path(&cfg, &env), ytdlp);
    assert_eq!(ffmpeg_path(&cfg, &env), ffmpeg);

    cfg.bins_dir = "~/.local/share/vdl/bins".to_string();
    assert_eq!(bins_dir(&cfg, &env), "/home/alice/.local/share/vdl/bins");
    cfg.bins_dir = "/opt/vdl".to_string();
    assert_eq!(bins_dir(&cfg, &env), "/opt/vdl");

    let unknown = PathEnv { home: None, cwd: None };
    cfg.bins_dir = "bins".to_string();
    assert_eq!(bins_dir(&cfg, &unknown), "bins");
}

#[test]
fn install_plan_installs_only_missing_binaries() {
    assert_eq!(install_plan(true, true), InstallPlan { install_ytdlp: false, install_ffmpeg: false });
    assert_eq!(install_plan(false, true), InstallPlan { install_ytdlp: true, install_ffmpeg: false });
    assert_eq!(install_plan(true, false), InstallPlan { install_ytdlp: false, install_ffmpeg: true });
    assert_eq!(install_plan(false, false), InstallPlan { install_ytdlp: true, install_ffmpeg: true });
}

fn run_update(events: &[UpdateEvent]) -> Vec<UpdateAction> {
    let mut phase = UpdatePhase::Start;
    let mut actions = Vec::new();
    for event in events {
        let (next, action) = update_step(phase, *event);
        phase = next;
        actions.push(action);
    }
    actions
}

#[test]
fn update_installs_missing_ytdlp_first_and_ffmpeg_last() {
    let actions = run_update(&[
        UpdateEvent::YtdlpPresent(false),
        UpdateEvent::YtdlpInstalled(true),
        UpdateEvent::DownloaderBuilt(true),
        UpdateEvent::Updated(true),
        UpdateEvent::FfmpegPresent(false),
        UpdateEvent::FfmpegInstalled(true),
    ]);
    assert_eq!(
        actions,
        vec![
            UpdateAction::InstallYtdlp,
            UpdateAction::BuildDownloader,
            UpdateAction::RunUpdate,
            UpdateAction::CheckFfmpeg,
            UpdateAction::InstallFfmpeg,
            UpdateAction::Finish,
        ]
    );
}

#[test]
fn update_with_everything_present_just_updates() {
    let actions = run_update(&[
        UpdateEvent::YtdlpPresent(true),
        UpdateEvent::DownloaderBuilt(true),
        UpdateEvent::Updated(true),
        UpdateEvent::FfmpegPresent(true),
    ]);
    assert_eq!(
        actions,
        vec![
            UpdateAction::BuildDownloader,
            UpdateAction::RunUpdate,
            UpdateAction::CheckFfmpeg,
            UpdateAction::Finish,
        ]
    );
}

#[test]
fn failed_update_stops_before_ffmpeg() {
    let actions = run_update(&[
        UpdateEvent::YtdlpPresent(true),
        UpdateEvent::DownloaderBuilt(true),
        UpdateEvent::Updated(false),
        UpdateEvent::FfmpegPresent(false),
    ]);
    assert_eq!(
        actions,
        vec![
            UpdateAction::BuildDownloader,
            UpdateAction::RunUpdate,
            UpdateAction::Fail(UpdateFailure::Update),
            UpdateAction::Ignore,
        ]
    );
    assert_eq!(UpdateFailure::Update.message(), "Failed to update yt-dlp");
}

#[test]
fn each_failed_update_step_has_its_message() {
    assert_eq!(
        update_step(UpdatePhase::InstallingYtdlp, UpdateEvent::YtdlpInstalled(false)),
        (UpdatePhase::Failed, UpdateAction::Fail(UpdateFailure::YtdlpInstall))
    );
    assert_eq!(
        update_step(UpdatePhase::Building, UpdateEvent::DownloaderBuilt(false)),
        (UpdatePhase::Failed, UpdateAction::Fail(UpdateFailure::Build))
    );
    assert_eq!(
        update_step(UpdatePhase::InstallingFfmpeg, UpdateEvent::FfmpegInstalled(false)),
        (UpdatePhase::Failed, UpdateAction::Fail(UpdateFailure::FfmpegInstall))
    );
    assert_eq!(
        UpdateFailure::YtdlpInstall.message(),
        "Failed to ensure sandboxed yt-dlp is installed before update"
    );
    assert_eq!(UpdateFailure::Build.message(), "Failed to initialise downloader for binary update");
    assert_eq!(
        UpdateFailure::FfmpegInstall.message(),
        "Failed to ensure sandboxed ffmpeg is installed after update"
    );
}
