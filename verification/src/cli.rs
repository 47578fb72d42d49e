//! The parsed command line: the subcommand chosen and its flags, as plain
//! values that the rest of the library reads.

use vstd::prelude::*;

verus! {

/// The top-level `vdl` command line: which subcommand runs, if any.
#[derive(Clone, Debug)]
pub struct Cli {
    pub command: Option<Commands>,
}

/// All supported platform and utility subcommands.
#[derive(Clone, Debug)]
pub enum Commands {
    /// `vdl yt` / `vdl youtube`.
    Yt(CommonArgs),
    /// `vdl tk` / `vdl tiktok`.
    Tk(CommonArgs),
    /// `vdl ig` / `vdl instagram`.
    Ig(CommonArgs),
    /// `vdl tw` / `vdl twitter`.
    Tw(CommonArgs),
    /// `vdl sp` / `vdl spotify`.
    Sp(SpotifyArgs),
    /// `vdl update`.
    Update,
    /// `vdl config`.
    Config,
}

/// The download flags shared by YouTube, TikTok, Instagram and Twitter/X.
#[derive(Clone, Debug)]
pub struct CommonArgs {
    /// `--url`: a direct media URL.
    pub url: Option<String>,
    /// `--quality`: best, 1080, 720, 480, 360 or worst.
    pub quality: Option<String>,
    /// `--audio-only`.
    pub audio_only: bool,
    /// `--video-only`.
    pub video_only: bool,
    /// `--format`: mp4, mkv, webm, mp3, m4a or opus.
    pub format: Option<String>,
    /// `--output`: the destination directory for this run, as text.
    pub output: Option<String>,
    /// `--search`: a search query instead of a URL.
    pub search: Option<String>,
    /// `--yes`: skip the confirmation prompt.
    pub yes: bool,
}

/// The flags of the Spotify subcommand.
#[derive(Clone, Debug)]
pub struct SpotifyArgs {
    /// `--url`: a direct Spotify URL.
    pub url: Option<String>,
    /// `--output`: the destination directory for this run, as text.
    pub output: Option<String>,
    /// `--format`: mp3, m4a or opus.
    pub format: Option<String>,
    /// `--yes`: skip the confirmation prompt.
    pub yes: bool,
}

} // verus!
