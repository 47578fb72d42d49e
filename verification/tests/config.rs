use vdl::config::{
    config_dir, config_dir_from_home, config_path, config_path_from_home, display_path,
    display_path_with, expand_tilde, expand_tilde_with_home, Config, ConfigError, PlatformQuality,
};

fn test_config() -> Config {
    Config {
        download_path: "~/Downloads/vdl".to_string(),
        default_format: "mp4".to_string(),
        default_video_quality: "1080".to_string(),
        platform_quality: PlatformQuality {
            youtube: "1080".to_string(),
            tiktok: "720".to_string(),
            instagram: "720".to_string(),
            twitter: "720".to_string(),
            spotify: "best".to_string(),
        },
        bins_dir: "~/.local/share/vdl/bins".to_string(),
        cookies_file: Some("~/.config/vdl/cookies.txt".to_string()),
        cookies_from_browser: None,
        confirm_before_download: true,
        search_results_count: 8,
        termux_mode: false,
        no_progress: false,
    }
}

fn home_text() -> String {
    dirs::home_dir().expect("home dir should exist").to_string_lossy().into_owned()
}

#[test]
fn expands_tilde_paths() {
    let home = "/tmp/vdl-home";
    assert_eq!(expand_tilde_with_home("~/Downloads/vdl", home), "/tmp/vdl-home/Downloads/vdl");
    assert_eq!(expand_tilde_with_home("~", home), "/tmp/vdl-home");
    assert_eq!(expand_tilde_with_home("/var/tmp/vdl", home), "/var/tmp/vdl");
}

#[test]
fn tilde_expansion_joins_like_paths() {
    assert_eq!(expand_tilde_with_home("~/a", "/root/"), "/root/a");
    assert_eq!(expand_tilde_with_home("~//etc", "/root"), "/etc");
    assert_eq!(expand_tilde_with_home("~/", "/root"), "/root/");
    assert_eq!(expand_tilde_with_home("~user/a", "/root"), "~user/a");
}

#[test]
fn expanding_twice_is_expanding_once() {
    for path in ["~", "~/x/y", "/abs", "rel", "~other"] {
        let once = expand_tilde_with_home(path, "/home/u");
        assert_eq!(expand_tilde_with_home(&once, "/home/u"), once);
    }
}

#[test]
fn expand_tilde_uses_the_home_directory() {
    let home = home_text();
    assert_eq!(expand_tilde("~/Music"), format!("{home}/Music"));
    assert_eq!(expand_tilde("/srv/x"), "/srv/x");
}

#[test]
fn config_path_lives_under_home() {
    assert_eq!(config_dir_from_home("/home/alice"), "/home/alice/.config/vdl");
    assert_eq!(config_path_from_home("/home/alice"), "/home/alice/.config/vdl/config.yaml");
    let home = home_text();
    assert_eq!(config_dir().unwrap(), format!("{home}/.config/vdl"));
    assert_eq!(config_path().unwrap(), format!("{home}/.config/vdl/config.yaml"));
    assert_eq!(ConfigError::HomeDirUnavailable.message(), "Failed to resolve home directory");
}

#[test]
fn config_paths_expand_against_home() {
    let cfg = test_config();
    let home = home_text();
    assert_eq!(cfg.download_path_expanded(), format!("{home}/Downloads/vdl"));
    assert_eq!(cfg.bins_dir_expanded(), format!("{home}/.local/share/vdl/bins"));
    let other = Some("/h".to_string());
    assert_eq!(cfg.download_path_expanded_with(&other), "/h/Downloads/vdl");
    assert_eq!(cfg.bins_dir_expanded_with(&None), "~/.local/share/vdl/bins");
}

#[test]
fn cookie_file_path_expands_when_present() {
    let cfg = test_config();
    assert_eq!(
        cfg.cookies_file_expanded().map(std::path::PathBuf::from),
        dirs::home_dir().map(|home| home.join(".config/vdl/cookies.txt"))
    );
    let mut none = test_config();
    none.cookies_file = None;
    assert_eq!(none.cookies_file_expanded(), None);
}

#[test]
fn display_path_uses_tilde_for_home_relative_paths() {
    let home = dirs::home_dir().expect("home dir should exist");
    let path = home.join(".config/vdl/config.yaml");
    assert_eq!(display_path(&path.to_string_lossy()), "~/.config/vdl/config.yaml");
}

#[test]
fn display_path_handles_home_itself_and_other_paths() {
    let home = Some("/home/u".to_string());
    assert_eq!(display_path_with("/home/u", &home), "~");
    assert_eq!(display_path_with("/home/u/", &home), "~");
    assert_eq!(display_path_with("/home/u/a/b", &home), "~/a/b");
    assert_eq!(display_path_with("/home/user", &home), "/home/user");
    assert_eq!(display_path_with("/etc/x", &home), "/etc/x");
    assert_eq!(display_path_with("/home/u/a", &None), "/home/u/a");
    let slash = Some("/home/u/".to_string());
    assert_eq!(display_path_with("/home/u/a", &slash), "~/a");
}

#[test]
fn display_path_compares_components() {
    let home = Some("/home/u".to_string());
    assert_eq!(display_path_with("/home/u//x", &home), "~/x");
    assert_eq!(display_path_with("/home/u/./x/", &home), "~/x");
    assert_eq!(display_path_with("/home/u/a//b/./c", &home), "~/a//b/./c");
    assert_eq!(display_path_with("/home/u/.", &home), "~");
    assert_eq!(display_path_with("/home//u/x", &home), "~/x");
    assert_eq!(display_path_with("/home/ux", &home), "/home/ux");
    let slash = Some("/home/u/".to_string());
    assert_eq!(display_path_with("/home/u", &slash), "~");
    assert_eq!(display_path_with("relative/x", &home), "relative/x");
}

#[test]
fn display_undoes_expansion() {
    let home = Some("/home/u".to_string());
    let expanded = expand_tilde_with_home("~/Videos/clip.mp4", "/home/u");
    assert_eq!(display_path_with(&expanded, &home), "~/Videos/clip.mp4");
}

#[test]
fn session_config_forces_quiet_progress_under_termux() {
    let cfg = test_config().for_session(true);
    assert!(cfg.termux_mode && cfg.no_progress);
    let cfg = test_config().for_session(false);
    assert!(!cfg.termux_mode && !cfg.no_progress);
    let mut quiet = test_config();
    quiet.termux_mode = true;
    let cfg = quiet.for_session(false);
    assert!(cfg.no_progress);
    assert_eq!(cfg.download_path, "~/Downloads/vdl");
}
