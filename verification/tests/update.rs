use vdl::commands::update::{first_output_line, parse_ffmpeg_version};

#[test]
fn parses_ffmpeg_version_from_banner() {
    assert_eq!(
        parse_ffmpeg_version("ffmpeg version 7.1.1-static Copyright (c)"),
        Some("7.1.1-static")
    );
}

#[test]
fn rejects_unexpected_ffmpeg_banner() {
    assert_eq!(parse_ffmpeg_version("unexpected output"), None);
}

#[test]
fn ffmpeg_banner_without_version_word_is_rejected() {
    assert_eq!(parse_ffmpeg_version("ffmpeg version    "), None);
    assert_eq!(parse_ffmpeg_version("ffmpeg version   n6.0\tbuilt"), Some("n6.0"));
}

#[test]
fn first_output_line_prefers_stdout() {
    assert_eq!(first_output_line("\n  2024.10.07 \nextra", "warn"), Some("2024.10.07".to_string()));
    assert_eq!(first_output_line("  \n\t", "\r\nffmpeg version 6\r\n"), Some("ffmpeg version 6".to_string()));
    assert_eq!(first_output_line("", " \n "), None);
}
