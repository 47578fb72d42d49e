//! The decisions of the download commands: which platform, which quality,
//! format and output directory a request resolves to, and which errors the
//! user is shown for contradictory or invalid flags.

pub mod render;
pub mod update;

use vstd::prelude::*;
use crate::cli::{CommonArgs, SpotifyArgs};
use crate::config::{expand_tilde_opt, home_dir, join_chars, join_path, opt_view, Config};
use crate::text::{chars_of, has_prefix_at, push_str, slice_chars, str_is, string_from_chars, trim, trim_spec};

verus! {

broadcast use vstd::string::group_string_axioms;

/// The platforms that `vdl` downloads from.
#[derive(Clone, Copy, Debug, PartialEq, Eq, Structural)]
pub enum Platform {
    YouTube,
    TikTok,
    Instagram,
    Twitter,
    Spotify,
}

impl Platform {
    pub open spec fn label_spec(self) -> Seq<char> {
        match self {
            Platform::YouTube => "YouTube"@,
            Platform::TikTok => "TikTok"@,
            Platform::Instagram => "Instagram"@,
            Platform::Twitter => "Twitter/X"@,
            Platform::Spotify => "Spotify"@,
        }
    }

    /// The platform's display name.
    pub fn label(self) -> (r: &'static str)
        ensures
            r@ == self.label_spec(),
    {
        match self {
            Platform::YouTube => "YouTube",
            Platform::TikTok => "TikTok",
            Platform::Instagram => "Instagram",
            Platform::Twitter => "Twitter/X",
            Platform::Spotify => "Spotify",
        }
    }

    /// The configured quality for this platform.
    pub open spec fn quality_override_spec(self, cfg: Config) -> Option<Seq<char>> {
        match self {
            Platform::YouTube => Some(cfg.platform_quality.youtube@),
            Platform::TikTok => Some(cfg.platform_quality.tiktok@),
            Platform::Instagram => Some(cfg.platform_quality.instagram@),
            Platform::Twitter => Some(cfg.platform_quality.twitter@),
            Platform::Spotify => Some(cfg.platform_quality.spotify@),
        }
    }

    /// The per-platform quality from the config.
    pub fn quality_override<'a>(self, cfg: &'a Config) -> (r: Option<&'a str>)
        ensures
            r is Some,
            r matches Some(q) ==> Some(q@) == self.quality_override_spec(*cfg),
    {
        match self {
            Platform::YouTube => Some(cfg.platform_quality.youtube.as_str()),
            Platform::TikTok => Some(cfg.platform_quality.tiktok.as_str()),
            Platform::Instagram => Some(cfg.platform_quality.instagram.as_str()),
            Platform::Twitter => Some(cfg.platform_quality.twitter.as_str()),
            Platform::Spotify => Some(cfg.platform_quality.spotify.as_str()),
        }
    }

    /// Whether the platform can be searched by keyword (only YouTube).
    pub fn supports_search(self) -> (r: bool)
        ensures
            r == (self == Platform::YouTube),
    {
        match self {
            Platform::YouTube => true,
            _ => false,
        }
    }
}

/// The parts of the process environment that path resolution reads.
#[derive(Clone, Debug)]
pub struct PathEnv {
    /// The user's home directory, if known.
    pub home: Option<String>,
    /// The current working directory, if known.
    pub cwd: Option<String>,
}

impl PathEnv {
    /// The environment with the user's home directory and the given working directory.
    pub fn with_cwd(cwd: Option<String>) -> (r: PathEnv)
        ensures
            r.cwd == cwd,
            r.home matches Some(h) ==> h@.len() > 0,
    {
        PathEnv { home: home_dir(), cwd }
    }
}

/// A fully resolved request for YouTube, TikTok, Instagram or Twitter/X.
#[derive(Clone, Debug)]
pub struct CommonRequest {
    pub url: Option<String>,
    pub search: Option<String>,
    pub quality: String,
    pub format: String,
    pub output_dir: String,
    pub audio_only: bool,
    pub video_only: bool,
    pub yes: bool,
}

pub struct CommonRequestView {
    pub url: Option<Seq<char>>,
    pub search: Option<Seq<char>>,
    pub quality: Seq<char>,
    pub format: Seq<char>,
    pub output_dir: Seq<char>,
    pub audio_only: bool,
    pub video_only: bool,
    pub yes: bool,
}

impl View for CommonRequest {
    type V = CommonRequestView;

    open spec fn view(&self) -> CommonRequestView {
        CommonRequestView {
            url: opt_view(self.url),
            search: opt_view(self.search),
            quality: self.quality@,
            format: self.format@,
            output_dir: self.output_dir@,
            audio_only: self.audio_only,
            video_only: self.video_only,
            yes: self.yes,
        }
    }
}

/// A fully resolved Spotify request.
#[derive(Clone, Debug)]
pub struct SpotifyRequest {
    pub url: String,
    pub format: String,
    pub output_dir: String,
    pub yes: bool,
}

pub struct SpotifyRequestView {
    pub url: Seq<char>,
    pub format: Seq<char>,
    pub output_dir: Seq<char>,
    pub yes: bool,
}

impl View for SpotifyRequest {
    type V = SpotifyRequestView;

    open spec fn view(&self) -> SpotifyRequestView {
        SpotifyRequestView {
            url: self.url@,
            format: self.format@,
            output_dir: self.output_dir@,
            yes: self.yes,
        }
    }
}

/// Why a download request could not be resolved, or what the user must be
/// asked before it can be.
#[derive(Clone, Debug)]
pub enum NormalizeError {
    InvalidFormat(String),
    AudioVideoConflict,
    UrlSearchConflict,
    /// Neither a URL nor a search query was given: the user is to be asked
    /// for a search query, which is then handed back.
    NeedsSearchQuery,
    EmptySearchQuery,
    InvalidQuality(String),
    CurrentDirUnavailable,
    AudioFormatWithVideoOnly,
    /// No Spotify URL was given: the user is to be asked for one, which is
    /// then handed back.
    NeedsSpotifyUrl,
    InvalidSpotifyFormat,
    SearchUnsupported,
}

pub enum NormalizeErrorView {
    InvalidFormat(Seq<char>),
    AudioVideoConflict,
    UrlSearchConflict,
    NeedsSearchQuery,
    EmptySearchQuery,
    InvalidQuality(Seq<char>),
    CurrentDirUnavailable,
    AudioFormatWithVideoOnly,
    NeedsSpotifyUrl,
    InvalidSpotifyFormat,
    SearchUnsupported,
}

impl View for NormalizeError {
    type V = NormalizeErrorView;

    open spec fn view(&self) -> NormalizeErrorView {
        match self {
            NormalizeError::InvalidFormat(f) => NormalizeErrorView::InvalidFormat(f@),
            NormalizeError::AudioVideoConflict => NormalizeErrorView::AudioVideoConflict,
            NormalizeError::UrlSearchConflict => NormalizeErrorView::UrlSearchConflict,
            NormalizeError::NeedsSearchQuery => NormalizeErrorView::NeedsSearchQuery,
            NormalizeError::EmptySearchQuery => NormalizeErrorView::EmptySearchQuery,
            NormalizeError::InvalidQuality(q) => NormalizeErrorView::InvalidQuality(q@),
            NormalizeError::CurrentDirUnavailable => NormalizeErrorView::CurrentDirUnavailable,
            NormalizeError::AudioFormatWithVideoOnly => NormalizeErrorView::AudioFormatWithVideoOnly,
            NormalizeError::NeedsSpotifyUrl => NormalizeErrorView::NeedsSpotifyUrl,
            NormalizeError::InvalidSpotifyFormat => NormalizeErrorView::InvalidSpotifyFormat,
            NormalizeError::SearchUnsupported => NormalizeErrorView::SearchUnsupported,
        }
    }
}

/// The text shown to the user for each outcome.
pub open spec fn error_message_spec(e: NormalizeErrorView) -> Seq<char> {
    match e {
        NormalizeErrorView::InvalidFormat(f) => "Invalid format \""@ + f + "\"."@,
        NormalizeErrorView::AudioVideoConflict => "--audio-only and --video-only are mutually exclusive."@,
        NormalizeErrorView::UrlSearchConflict => "--url and --search are mutually exclusive."@,
        NormalizeErrorView::NeedsSearchQuery => "Enter search query"@,
        NormalizeErrorView::EmptySearchQuery => "Search query cannot be empty."@,
        NormalizeErrorView::InvalidQuality(q) => "Invalid quality \""@ + q
            + "\". Expected one of: best, 1080, 720, 480, 360, worst."@,
        NormalizeErrorView::CurrentDirUnavailable => "Failed to resolve current working directory"@,
        NormalizeErrorView::AudioFormatWithVideoOnly => "Audio formats cannot be used with --video-only."@,
        NormalizeErrorView::NeedsSpotifyUrl => "Enter Spotify URL"@,
        NormalizeErrorView::InvalidSpotifyFormat => "Spotify only supports mp3, m4a, or opus output."@,
        NormalizeErrorView::SearchUnsupported => "Search is only supported for YouTube. Please provide a URL with --url."@,
    }
}

impl NormalizeError {
    /// The message shown to the user (for the two prompting outcomes, the
    /// prompt's text).
    pub fn message(&self) -> (r: String)
        ensures
            r@ == error_message_spec(self@),
    {
        let mut out: Vec<char> = Vec::new();
        match self {
            NormalizeError::InvalidFormat(f) => {
                push_str(&mut out, "Invalid format \"");
                push_str(&mut out, f.as_str());
                push_str(&mut out, "\".");
            },
            NormalizeError::AudioVideoConflict => {
                push_str(&mut out, "--audio-only and --video-only are mutually exclusive.");
            },
            NormalizeError::UrlSearchConflict => {
                push_str(&mut out, "--url and --search are mutually exclusive.");
            },
            NormalizeError::NeedsSearchQuery => {
                push_str(&mut out, "Enter search query");
            },
            NormalizeError::EmptySearchQuery => {
                push_str(&mut out, "Search query cannot be empty.");
            },
            NormalizeError::InvalidQuality(q) => {
                push_str(&mut out, "Invalid quality \"");
                push_str(&mut out, q.as_str());
                push_str(&mut out, "\". Expected one of: best, 1080, 720, 480, 360, worst.");
            },
            NormalizeError::CurrentDirUnavailable => {
                push_str(&mut out, "Failed to resolve current working directory");
            },
            NormalizeError::AudioFormatWithVideoOnly => {
                push_str(&mut out, "Audio formats cannot be used with --video-only.");
            },
            NormalizeError::NeedsSpotifyUrl => {
                push_str(&mut out, "Enter Spotify URL");
            },
            NormalizeError::InvalidSpotifyFormat => {
                push_str(&mut out, "Spotify only supports mp3, m4a, or opus output.");
            },
            NormalizeError::SearchUnsupported => {
                push_str(
                    &mut out,
                    "Search is only supported for YouTube. Please provide a URL with --url.",
                );
            },
        }
        assert(out@ =~= error_message_spec(self@));
        string_from_chars(&out)
    }
}

/// Trimmed text, or nothing when only white space was given.
pub open spec fn normalized_text(value: Option<Seq<char>>) -> Option<Seq<char>> {
    match value {
        Some(v) => if trim_spec(v).len() == 0 {
            None
        } else {
            Some(trim_spec(v))
        },
        None => None,
    }
}

/// The accepted `--quality` values.
pub open spec fn valid_quality(q: Seq<char>) -> bool {
    ||| q == "best"@
    ||| q == "1080"@
    ||| q == "720"@
    ||| q == "480"@
    ||| q == "360"@
    ||| q == "worst"@
}

/// The accepted `--format` values of the common platforms.
pub open spec fn valid_common_format(f: Seq<char>) -> bool {
    ||| f == "mp4"@
    ||| f == "mkv"@
    ||| f == "webm"@
    ||| f == "mp3"@
    ||| f == "m4a"@
    ||| f == "opus"@
}

/// The audio-only containers, which are also the formats Spotify accepts.
pub open spec fn is_audio_format_spec(f: Seq<char>) -> bool {
    ||| f == "mp3"@
    ||| f == "m4a"@
    ||| f == "opus"@
}

/// An `--output` override with `~`, `~/` or `~\` expanded against the home directory.
pub open spec fn expand_user_path_spec(path: Seq<char>, home: Option<Seq<char>>) -> Seq<char> {
    match home {
        None => path,
        Some(h) => if path == "~"@ {
            h
        } else if "~/"@.is_prefix_of(path) || "~\\"@.is_prefix_of(path) {
            join_path(h, path.skip(2))
        } else {
            path
        },
    }
}

/// The output directory: the expanded override or else the fallback, made
/// absolute against the working directory when it is relative.
pub open spec fn resolve_output_dir_spec(
    override_dir: Option<Seq<char>>,
    fallback: Seq<char>,
    home: Option<Seq<char>>,
    cwd: Option<Seq<char>>,
) -> Result<Seq<char>, NormalizeErrorView> {
    let raw = match override_dir {
        Some(o) => expand_user_path_spec(o, home),
        None => fallback,
    };
    if raw.len() > 0 && raw[0] == '/' {
        Ok(raw)
    } else {
        match cwd {
            Some(c) => Ok(join_path(c, raw)),
            None => Err(NormalizeErrorView::CurrentDirUnavailable),
        }
    }
}

/// The quality of a request: the flag, else the platform's configured
/// quality, else the default video quality.
pub open spec fn quality_choice(platform: Platform, flag: Option<Seq<char>>, cfg: Config) -> Seq<char> {
    match flag {
        Some(q) => q,
        None => match platform.quality_override_spec(cfg) {
            Some(o) => o,
            None => cfg.default_video_quality@,
        },
    }
}

/// The format of a request: the flag, else mp3 for `--audio-only`, else the
/// configured default format.
pub open spec fn common_format_choice(args: CommonArgs, cfg: Config) -> Seq<char> {
    match args.format {
        Some(f) => f@,
        None => if args.audio_only {
            "mp3"@
        } else {
            cfg.default_format@
        },
    }
}

/// The search query of a request once URL and search are known not to
/// conflict: the one given, or else the query the user was asked for.
pub open spec fn search_choice(
    url: Option<Seq<char>>,
    search: Option<Seq<char>>,
    prompted: Option<Seq<char>>,
) -> Result<Option<Seq<char>>, NormalizeErrorView> {
    if url is None && search is None {
        match prompted {
            None => Err(NormalizeErrorView::NeedsSearchQuery),
            Some(q) => if trim_spec(q).len() == 0 {
                Err(NormalizeErrorView::EmptySearchQuery)
            } else {
                Ok(Some(q))
            },
        }
    } else {
        Ok(search)
    }
}

/// How the flags of YouTube, TikTok, Instagram and Twitter/X resolve to a
/// request, checked in this order: the format, `--audio-only` against
/// `--video-only` (an audio format implies `--audio-only`), `--url` against
/// `--search`, the search query (asked for when neither was given), the
/// quality, the output directory, and an audio format with `--video-only`.
pub open spec fn normalize_common_spec(
    platform: Platform,
    args: CommonArgs,
    cfg: Config,
    home: Option<Seq<char>>,
    cwd: Option<Seq<char>>,
    prompted: Option<Seq<char>>,
) -> Result<CommonRequestView, NormalizeErrorView> {
    let url = normalized_text(opt_view(args.url));
    let search = normalized_text(opt_view(args.search));
    let format = common_format_choice(args, cfg);
    let audio_only = args.audio_only || is_audio_format_spec(format);
    if !valid_common_format(format) {
        Err(NormalizeErrorView::InvalidFormat(format))
    } else if audio_only && args.video_only {
        Err(NormalizeErrorView::AudioVideoConflict)
    } else if url is Some && search is Some {
        Err(NormalizeErrorView::UrlSearchConflict)
    } else {
        match search_choice(url, search, prompted) {
            Err(e) => Err(e),
            Ok(search) => {
                let quality = quality_choice(platform, opt_view(args.quality), cfg);
                if !valid_quality(quality) {
                    Err(NormalizeErrorView::InvalidQuality(quality))
                } else {
                    match resolve_output_dir_spec(
                        opt_view(args.output),
                        expand_tilde_opt(cfg.download_path@, home),
                        home,
                        cwd,
                    ) {
                        Err(e) => Err(e),
                        Ok(output_dir) => if args.video_only && is_audio_format_spec(format) {
                            Err(NormalizeErrorView::AudioFormatWithVideoOnly)
                        } else {
                            Ok(
                                CommonRequestView {
                                    url,
                                    search,
                                    quality,
                                    format,
                                    output_dir,
                                    audio_only,
                                    video_only: args.video_only,
                                    yes: args.yes,
                                },
                            )
                        },
                    }
                }
            },
        }
    }
}

/// How the Spotify flags resolve to a request: the URL (asked for when not
/// given), the format (mp3 unless given), then the output directory.
pub open spec fn normalize_spotify_spec(
    args: SpotifyArgs,
    cfg: Config,
    home: Option<Seq<char>>,
    cwd: Option<Seq<char>>,
    prompted: Option<Seq<char>>,
) -> Result<SpotifyRequestView, NormalizeErrorView> {
    let url = match normalized_text(opt_view(args.url)) {
        Some(u) => Ok(u),
        None => match prompted {
            Some(p) => Ok(p),
            None => Err(NormalizeErrorView::NeedsSpotifyUrl),
        },
    };
    let format = match args.format {
        Some(f) => f@,
        None => "mp3"@,
    };
    match url {
        Err(e) => Err(e),
        Ok(url) => if !is_audio_format_spec(format) {
            Err(NormalizeErrorView::InvalidSpotifyFormat)
        } else {
            match resolve_output_dir_spec(
                opt_view(args.output),
                expand_tilde_opt(cfg.download_path@, home),
                home,
                cwd,
            ) {
                Err(e) => Err(e),
                Ok(output_dir) => Ok(SpotifyRequestView { url, format, output_dir, yes: args.yes }),
            }
        },
    }
}

/// Trims optional text and drops it when nothing but white space is left.
pub fn normalize_optional_text(value: Option<String>) -> (r: Option<String>)
    ensures
        opt_view(r) == normalized_text(opt_view(value)),
{
    match value {
        Some(v) => {
            let t = trim(v.as_str());
            if t.unicode_len() == 0 {
                None
            } else {
                Some(t.to_owned())
            }
        },
        None => None,
    }
}

/// Accepts the six supported quality values.
pub fn ensure_valid_quality(value: &str) -> (r: Result<(), NormalizeError>)
    ensures
        r is Ok <==> valid_quality(value@),
        r matches Err(e) ==> e@ == NormalizeErrorView::InvalidQuality(value@),
{
    if str_is(value, "best") || str_is(value, "1080") || str_is(value, "720") || str_is(
        value,
        "480",
    ) || str_is(value, "360") || str_is(value, "worst") {
        Ok(())
    } else {
        Err(NormalizeError::InvalidQuality(value.to_owned()))
    }
}

/// Accepts the six supported containers of the common platforms.
pub fn ensure_valid_common_format(value: &str) -> (r: Result<(), NormalizeError>)
    ensures
        r is Ok <==> valid_common_format(value@),
        r matches Err(e) ==> e@ == NormalizeErrorView::InvalidFormat(value@),
{
    if str_is(value, "mp4") || str_is(value, "mkv") || str_is(value, "webm") || str_is(
        value,
        "mp3",
    ) || str_is(value, "m4a") || str_is(value, "opus") {
        Ok(())
    } else {
        Err(NormalizeError::InvalidFormat(value.to_owned()))
    }
}

/// Accepts the three audio containers that Spotify downloads support.
pub fn ensure_valid_spotify_format(value: &str) -> (r: Result<(), NormalizeError>)
    ensures
        r is Ok <==> is_audio_format_spec(value@),
        r matches Err(e) ==> e@ == NormalizeErrorView::InvalidSpotifyFormat,
{
    if is_audio_format(value) {
        Ok(())
    } else {
        Err(NormalizeError::InvalidSpotifyFormat)
    }
}

/// Whether the container holds audio only.
pub fn is_audio_format(value: &str) -> (r: bool)
    ensures
        r == is_audio_format_spec(value@),
{
    str_is(value, "mp3") || str_is(value, "m4a") || str_is(value, "opus")
}

/// Refuses keyword search on platforms other than YouTube.
pub fn ensure_search_supported(platform: Platform) -> (r: Result<(), NormalizeError>)
    ensures
        r is Ok <==> platform == Platform::YouTube,
        r matches Err(e) ==> e@ == NormalizeErrorView::SearchUnsupported,
{
    if platform.supports_search() {
        Ok(())
    } else {
        Err(NormalizeError::SearchUnsupported)
    }
}

/// Expands `~`, `~/` and `~\` at the start of an `--output` override.
pub fn expand_user_path(path: String, home: &Option<String>) -> (r: String)
    ensures
        r@ == expand_user_path_spec(path@, opt_view(*home)),
{
    match home {
        None => path,
        Some(h) => {
            let p = chars_of(path.as_str());
            if str_is(path.as_str(), "~") {
                return h.clone();
            }
            let a = chars_of("~/");
            let b = chars_of("~\\");
            proof {
                reveal_strlit("~/");
                reveal_strlit("~\\");
            }
            let pa = has_prefix_at(&p, 0, &a);
            let pb = has_prefix_at(&p, 0, &b);
            proof {
                assert(p@.subrange(0, 2) =~= p@.take(2)) by {
                    if p@.len() >= 2 {
                    }
                };
                if "~/"@.is_prefix_of(p@) {
                    assert(p@.subrange(0, 2) =~= "~/"@);
                }
                if "~\\"@.is_prefix_of(p@) {
                    assert(p@.subrange(0, 2) =~= "~\\"@);
                }
            }
            if pa || pb {
                let hv = chars_of(h.as_str());
                let rest = slice_chars(&p, 2, p.len());
                assert(rest@ =~= p@.skip(2));
                string_from_chars(&join_chars(&hv, &rest))
            } else {
                path
            }
        },
    }
}

/// The directory a download is written to (see `resolve_output_dir_spec`).
pub fn resolve_output_dir(override_dir: Option<String>, fallback: String, env: &PathEnv) -> (r:
    Result<String, NormalizeError>)
    ensures
        match (r, resolve_output_dir_spec(opt_view(override_dir), fallback@, opt_view(env.home), opt_view(env.cwd))) {
            (Ok(p), Ok(q)) => p@ == q,
            (Err(e), Err(f)) => e@ == f,
            _ => false,
        },
{
    let raw = match override_dir {
        Some(o) => expand_user_path(o, &env.home),
        None => fallback,
    };
    let v = chars_of(raw.as_str());
    if v.len() > 0 && v[0] == '/' {
        Ok(raw)
    } else {
        match &env.cwd {
            Some(c) => {
                let cv = chars_of(c.as_str());
                Ok(string_from_chars(&join_chars(&cv, &v)))
            },
            None => Err(NormalizeError::CurrentDirUnavailable),
        }
    }
}

/// Resolves the flags of YouTube, TikTok, Instagram or Twitter/X into a
/// request (see `normalize_common_spec`). When neither a URL nor a search
/// query is given and `prompted` is empty, the result asks for a query; the
/// caller asks the user and calls again with the answer in `prompted`.
pub fn normalize_common_args(
    platform: Platform,
    args: CommonArgs,
    cfg: &Config,
    env: &PathEnv,
    prompted: Option<String>,
) -> (r: Result<CommonRequest, NormalizeError>)
    ensures
        match (
            r,
            normalize_common_spec(
                platform,
                args,
                *cfg,
                opt_view(env.home),
                opt_view(env.cwd),
                opt_view(prompted),
            ),
        ) {
            (Ok(a), Ok(b)) => a@ == b,
            (Err(e), Err(f)) => e@ == f,
            _ => false,
        },
{
    let CommonArgs { url, quality, audio_only, video_only, format, output, search, yes } = args;
    let url = normalize_optional_text(url);
    let search = normalize_optional_text(search);
    let format: String = match format {
        Some(f) => f,
        None => if audio_only {
            "mp3".to_owned()
        } else {
            cfg.default_format.clone()
        },
    };
    ensure_valid_common_format(format.as_str())?;
    let audio_only = audio_only || is_audio_format(format.as_str());
    if audio_only && video_only {
        return Err(NormalizeError::AudioVideoConflict);
    }
    if url.is_some() && search.is_some() {
        return Err(NormalizeError::UrlSearchConflict);
    }
    let search = if url.is_none() && search.is_none() {
        match prompted {
            None => {
                return Err(NormalizeError::NeedsSearchQuery);
            },
            Some(q) => {
                if trim(q.as_str()).unicode_len() == 0 {
                    return Err(NormalizeError::EmptySearchQuery);
                }
                Some(q)
            },
        }
    } else {
        search
    };
    let quality: String = match quality {
        Some(q) => q,
        None => match platform.quality_override(cfg) {
            Some(o) => o.to_owned(),
            None => cfg.default_video_quality.clone(),
        },
    };
    ensure_valid_quality(quality.as_str())?;
    let fallback = cfg.download_path_expanded_with(&env.home);
    let output_dir = resolve_output_dir(output, fallback, env)?;
    if video_only && is_audio_format(format.as_str()) {
        return Err(NormalizeError::AudioFormatWithVideoOnly);
    }
    Ok(CommonRequest { url, search, quality, format, output_dir, audio_only, video_only, yes })
}

/// Resolves the Spotify flags into a request (see `normalize_spotify_spec`).
/// When no URL is given and `prompted` is empty, the result asks for a URL;
/// the caller asks the user and calls again with the answer in `prompted`.
pub fn normalize_spotify_args(
    args: SpotifyArgs,
    cfg: &Config,
    env: &PathEnv,
    prompted: Option<String>,
) -> (r: Result<SpotifyRequest, NormalizeError>)
    ensures
        match (
            r,
            normalize_spotify_spec(
                args,
                *cfg,
                opt_view(env.home),
                opt_view(env.cwd),
                opt_view(prompted),
            ),
        ) {
            (Ok(a), Ok(b)) => a@ == b,
            (Err(e), Err(f)) => e@ == f,
            _ => false,
        },
{
    let SpotifyArgs { url, output, format, yes } = args;
    let url: String = match normalize_optional_text(url) {
        Some(u) => u,
        None => match prompted {
            Some(p) => p,
            None => {
                return Err(NormalizeError::NeedsSpotifyUrl);
            },
        },
    };
    let format: String = match format {
        Some(f) => f,
        None => "mp3".to_owned(),
    };
    ensure_valid_spotify_format(format.as_str())?;
    let fallback = cfg.download_path_expanded_with(&env.home);
    let output_dir = resolve_output_dir(output, fallback, env)?;
    Ok(SpotifyRequest { url, format, output_dir, yes })
}

} // verus!
