//! Where the private `yt-dlp` and `ffmpeg` binaries live, and how a Termux
//! session on Android is recognised and its `PATH` extended.

use vstd::prelude::*;
use crate::commands::PathEnv;
use crate::config::{expand_tilde_opt, join_chars, join_path, opt_view, Config};
use crate::text::{chars_eq, chars_of, contains_chars, contains_seq, push_str, slice_chars, string_from_chars};

verus! {

broadcast use vstd::string::group_string_axioms;

/// `std::path::MAIN_SEPARATOR`, the platform's path separator. The contract
/// claims only that it is `\` (Windows) or `/` (every other target).
#[verifier::external_body]
fn main_separator() -> (c: char)
    ensures
        c == '/' || c == '\\',
{
    std::path::MAIN_SEPARATOR
}

/// Whether the program was built for Windows, where paths use `\`.
fn target_is_windows() -> (r: bool) {
    main_separator() == '\\'
}

/// A binary's file name: `.exe` is appended on Windows.
pub open spec fn executable_name_spec(base: Seq<char>, windows: bool) -> Seq<char> {
    if windows {
        base + ".exe"@
    } else {
        base
    }
}

/// A binary's file name for the given platform.
pub fn executable_name_for(base: &str, windows: bool) -> (r: String)
    ensures
        r@ == executable_name_spec(base@, windows),
{
    let mut out = chars_of(base);
    if windows {
        push_str(&mut out, ".exe");
    }
    string_from_chars(&out)
}

/// A binary's file name on this platform.
pub fn executable_name(base: &str) -> (r: String)
    ensures
        r@ == executable_name_spec(base@, true) || r@ == executable_name_spec(base@, false),
{
    executable_name_for(base, target_is_windows())
}

/// The path of a sandboxed binary: its file name inside the sandbox directory.
pub open spec fn binary_path_spec(bins_dir: Seq<char>, base: Seq<char>, windows: bool) -> Seq<char> {
    join_path(bins_dir, executable_name_spec(base, windows))
}

/// The path of a sandboxed binary, given the sandbox directory and platform.
pub fn binary_path_in(bins_dir: &str, base: &str, windows: bool) -> (r: String)
    ensures
        r@ == binary_path_spec(bins_dir@, base@, windows),
{
    let dir = chars_of(bins_dir);
    let name = executable_name_for(base, windows);
    let file = chars_of(name.as_str());
    string_from_chars(&join_chars(&dir, &file))
}

/// A path made absolute against the working directory: an absolute path is
/// kept, a relative one is joined onto the working directory when that is
/// known, and kept as it is otherwise.
pub open spec fn absolute_against(path: Seq<char>, cwd: Option<Seq<char>>) -> Seq<char> {
    if path.len() > 0 && path[0] == '/' {
        path
    } else {
        match cwd {
            Some(c) => join_path(c, path),
            None => path,
        }
    }
}

/// Whether a path is absolute (Unix form: it starts with `/`).
pub open spec fn is_absolute(path: Seq<char>) -> bool {
    path.len() > 0 && path[0] == '/'
}

/// The sandbox directory: the configured `bins_dir` with `~` expanded,
/// made absolute against the working directory.
pub open spec fn sandbox_dir_spec(bins_dir: Seq<char>, home: Option<Seq<char>>, cwd: Option<Seq<char>>) -> Seq<char> {
    absolute_against(expand_tilde_opt(bins_dir, home), cwd)
}

proof fn lemma_join_keeps_absolute(base: Seq<char>, rest: Seq<char>)
    requires
        is_absolute(base),
    ensures
        is_absolute(join_path(base, rest)),
{
    if !(rest.len() > 0 && rest[0] == '/') {
        if base.last() == '/' {
            assert((base + rest)[0] == base[0]);
        } else {
            assert((base + seq!['/'] + rest)[0] == base[0]);
        }
    }
}

/// The sandbox directory that holds `yt-dlp` and `ffmpeg` (see
/// `sandbox_dir_spec`); it is absolute whenever the working directory is.
pub fn bins_dir(cfg: &Config, env: &PathEnv) -> (r: String)
    ensures
        r@ == sandbox_dir_spec(cfg.bins_dir@, opt_view(env.home), opt_view(env.cwd)),
        env.cwd matches Some(c) && is_absolute(c@) ==> is_absolute(r@),
{
    let expanded = cfg.bins_dir_expanded_with(&env.home);
    let v = chars_of(expanded.as_str());
    if v.len() > 0 && v[0] == '/' {
        expanded
    } else {
        match &env.cwd {
            Some(c) => {
                let cv = chars_of(c.as_str());
                proof {
                    if is_absolute(c@) {
                        lemma_join_keeps_absolute(c@, v@);
                    }
                }
                string_from_chars(&join_chars(&cv, &v))
            },
            None => expanded,
        }
    }
}

/// The sandboxed `yt-dlp` binary: its platform file name inside the sandbox
/// directory; absolute whenever the working directory is.
pub fn ytdlp_path(cfg: &Config, env: &PathEnv) -> (r: String)
    ensures
        r@ == binary_path_spec(
            sandbox_dir_spec(cfg.bins_dir@, opt_view(env.home), opt_view(env.cwd)),
            "yt-dlp"@,
            true,
        ) || r@ == binary_path_spec(
            sandbox_dir_spec(cfg.bins_dir@, opt_view(env.home), opt_view(env.cwd)),
            "yt-dlp"@,
            false,
        ),
        env.cwd matches Some(c) && is_absolute(c@) ==> is_absolute(r@),
{
    let dir = bins_dir(cfg, env);
    let windows = target_is_windows();
    proof {
        if is_absolute(dir@) {
            lemma_join_keeps_absolute(dir@, executable_name_spec("yt-dlp"@, windows));
        }
    }
    binary_path_in(dir.as_str(), "yt-dlp", windows)
}

/// The sandboxed `ffmpeg` binary: its platform file name inside the sandbox
/// directory; absolute whenever the working directory is.
pub fn ffmpeg_path(cfg: &Config, env: &PathEnv) -> (r: String)
    ensures
        r@ == binary_path_spec(
            sandbox_dir_spec(cfg.bins_dir@, opt_view(env.home), opt_view(env.cwd)),
            "ffmpeg"@,
            true,
        ) || r@ == binary_path_spec(
            sandbox_dir_spec(cfg.bins_dir@, opt_view(env.home), opt_view(env.cwd)),
            "ffmpeg"@,
            false,
        ),
        env.cwd matches Some(c) && is_absolute(c@) ==> is_absolute(r@),
{
    let dir = bins_dir(cfg, env);
    let windows = target_is_windows();
    proof {
        if is_absolute(dir@) {
            lemma_join_keeps_absolute(dir@, executable_name_spec("ffmpeg"@, windows));
        }
    }
    binary_path_in(dir.as_str(), "ffmpeg", windows)
}

/// Termux is recognised by a `TERMUX_VERSION` variable, or by a home
/// directory whose path mentions `com.termux`.
pub open spec fn is_termux_spec(termux_version: bool, home: Option<Seq<char>>) -> bool {
    termux_version || match home {
        Some(h) => contains_seq(h, "com.termux"@),
        None => false,
    }
}

/// Whether a session runs under Termux, given the `TERMUX_VERSION`
/// variable and the home directory.
pub fn is_termux_with(termux_version: Option<&str>, home_dir: Option<String>) -> (r: bool)
    ensures
        r == is_termux_spec(termux_version is Some, opt_view(home_dir)),
{
    if termux_version.is_some() {
        return true;
    }
    match home_dir {
        Some(h) => {
            let hv = chars_of(h.as_str());
            let needle = chars_of("com.termux");
            contains_chars(&hv, &needle)
        },
        None => false,
    }
}

/// Termux's own binary directory.
pub open spec fn termux_bin_spec() -> Seq<char> {
    "/data/data/com.termux/files/usr/bin"@
}

/// Whether `seg` is one of the `:`-separated entries of `path`.
pub open spec fn has_path_segment(path: Seq<char>, seg: Seq<char>) -> bool {
    exists|i: int, j: int|
        0 <= i <= j <= path.len() && #[trigger] path.subrange(i, j) == seg && (i == 0 || path[i
            - 1] == ':') && (j == path.len() || path[j] == ':') && (forall|m: int|
            i <= m < j ==> path[m] != ':')
}

/// The `PATH` that a Termux session needs: unchanged (`None`) when Termux's
/// binary directory is already an entry, else that directory put first.
pub open spec fn termux_path_spec(current: Seq<char>) -> Option<Seq<char>> {
    if has_path_segment(current, termux_bin_spec()) {
        None
    } else if current.len() == 0 {
        Some(termux_bin_spec())
    } else {
        Some(termux_bin_spec() + ":"@ + current)
    }
}

/// The new `PATH` for a Termux session, or `None` when it needs no change.
pub fn termux_path_update(current: &str) -> (r: Option<String>)
    ensures
        match (r, termux_path_spec(current@)) {
            (Some(a), Some(b)) => a@ == b,
            (None, None) => true,
            _ => false,
        },
{
    let v = chars_of(current);
    let n = v.len();
    let mut start: usize = 0;
    let ghost bin = termux_bin_spec();
    loop
        invariant
            start <= n == v@.len(),
            start == 0 || v@[start - 1] == ':',
            bin == termux_bin_spec(),
            v@ == current@,
            forall|i: int, j: int|
                0 <= i < start && i <= j <= n && (i == 0 || v@[i - 1] == ':') && (j == n
                    || v@[j] == ':') && (forall|m: int| i <= m < j ==> v@[m] != ':')
                    ==> #[trigger] v@.subrange(i, j) != bin,
        decreases n - start,
    {
        let mut end: usize = start;
        while end < n && v[end] != ':'
            invariant
                start <= end <= n == v@.len(),
                forall|m: int| start <= m < end ==> v@[m] != ':',
            decreases n - end,
        {
            end = end + 1;
        }
        let segment = slice_chars(&v, start, end);
        if chars_eq(&segment, "/data/data/com.termux/files/usr/bin") {
            assert(v@.subrange(start as int, end as int) == bin);
            assert(has_path_segment(v@, bin)) by {
                assert(end == n || v@[end as int] == ':');
                assert(forall|m: int| start <= m < end ==> v@[m] != ':');
                assert(v@.subrange(start as int, end as int) == bin);
            }
            return None;
        }
        proof {
            assert forall|i: int, j: int|
                0 <= i < (if end < n { end + 1 } else { n + 1 }) && i <= j <= n && (i == 0 || v@[i
                    - 1] == ':') && (j == n || v@[j] == ':') && (forall|m: int|
                    i <= m < j ==> v@[m] != ':') implies #[trigger] v@.subrange(i, j) != bin by {
                if i < start {
                } else if i == start {
                    if j < end {
                        assert(v@[j] != ':');
                    } else if j > end {
                        assert(v@[end as int] == ':');
                    }
                } else {
                    assert(v@[i - 1] != ':' || i - 1 == end);
                }
            }
        }
        if end >= n {
            proof {
                assert(!has_path_segment(v@, bin)) by {
                    if has_path_segment(v@, bin) {
                        let ij = choose|ij: (int, int)|
                            0 <= ij.0 <= ij.1 <= v@.len() && #[trigger] v@.subrange(ij.0, ij.1)
                                == bin && (ij.0 == 0 || v@[ij.0 - 1] == ':') && (ij.1 == v@.len()
                                || v@[ij.1] == ':') && (forall|m: int|
                                ij.0 <= m < ij.1 ==> v@[m] != ':');
                        assert(v@.subrange(ij.0, ij.1) != bin);
                    }
                }
            }
            let mut out = chars_of("/data/data/com.termux/files/usr/bin");
            if n > 0 {
                push_str(&mut out, ":");
                push_str(&mut out, current);
            }
            return Some(string_from_chars(&out));
        }
        start = end + 1;
    }
}

/// Which helper binaries `ensure_installed` downloads.
#[derive(Clone, Copy, Debug, PartialEq, Eq, Structural)]
pub struct InstallPlan {
    pub install_ytdlp: bool,
    pub install_ffmpeg: bool,
}

/// Before a download, each helper binary that is missing from the sandbox
/// is installed; one that is present is left alone.
pub fn install_plan(ytdlp_present: bool, ffmpeg_present: bool) -> (r: InstallPlan)
    ensures
        r.install_ytdlp == !ytdlp_present,
        r.install_ffmpeg == !ffmpeg_present,
{
    InstallPlan { install_ytdlp: !ytdlp_present, install_ffmpeg: !ffmpeg_present }
}

/// Where `vdl update` stands.
#[derive(Clone, Copy, Debug, PartialEq, Eq, Structural)]
pub enum UpdatePhase {
    /// Nothing done yet; whether yt-dlp is present is reported first.
    Start,
    InstallingYtdlp,
    Building,
    Updating,
    CheckingFfmpeg,
    InstallingFfmpeg,
    Done,
    Failed,
}

/// What the caller reports after doing what the last action asked.
#[derive(Clone, Copy, Debug, PartialEq, Eq, Structural)]
pub enum UpdateEvent {
    /// Whether the sandboxed yt-dlp exists.
    YtdlpPresent(bool),
    /// Whether installing yt-dlp succeeded.
    YtdlpInstalled(bool),
    /// Whether the downloader could be set up.
    DownloaderBuilt(bool),
    /// Whether yt-dlp updated itself.
    Updated(bool),
    /// Whether the sandboxed ffmpeg exists.
    FfmpegPresent(bool),
    /// Whether installing ffmpeg succeeded.
    FfmpegInstalled(bool),
}

/// Which step of `vdl update` failed.
#[derive(Clone, Copy, Debug, PartialEq, Eq, Structural)]
pub enum UpdateFailure {
    YtdlpInstall,
    Build,
    Update,
    FfmpegInstall,
}

impl UpdateFailure {
    pub open spec fn message_spec(self) -> Seq<char> {
        match self {
            UpdateFailure::YtdlpInstall => "Failed to ensure sandboxed yt-dlp is installed before update"@,
            UpdateFailure::Build => "Failed to initialise downloader for binary update"@,
            UpdateFailure::Update => "Failed to update yt-dlp"@,
            UpdateFailure::FfmpegInstall => "Failed to ensure sandboxed ffmpeg is installed after update"@,
        }
    }

    /// The message `vdl update` stops with.
    pub fn message(&self) -> (r: String)
        ensures
            r@ == self.message_spec(),
    {
        match self {
            UpdateFailure::YtdlpInstall => "Failed to ensure sandboxed yt-dlp is installed before update".to_owned(),
            UpdateFailure::Build => "Failed to initialise downloader for binary update".to_owned(),
            UpdateFailure::Update => "Failed to update yt-dlp".to_owned(),
            UpdateFailure::FfmpegInstall => "Failed to ensure sandboxed ffmpeg is installed after update".to_owned(),
        }
    }
}

/// What the caller is asked to do next.
#[derive(Clone, Copy, Debug, PartialEq, Eq, Structural)]
pub enum UpdateAction {
    InstallYtdlp,
    BuildDownloader,
    RunUpdate,
    CheckFfmpeg,
    InstallFfmpeg,
    /// Make the binaries executable and stop.
    Finish,
    /// Stop with the failure's message.
    Fail(UpdateFailure),
    /// The event does not belong to this phase; nothing changes.
    Ignore,
}

/// `vdl update`: a missing yt-dlp is installed first; then the downloader is
/// set up and yt-dlp updates itself; only after a successful update is
/// ffmpeg checked and, when missing, installed; then the binaries are made
/// executable. Any failed step stops the update with its message, and a
/// finished or failed update ignores further events.
pub open spec fn update_step_spec(phase: UpdatePhase, event: UpdateEvent) -> (UpdatePhase, UpdateAction) {
    match (phase, event) {
        (UpdatePhase::Start, UpdateEvent::YtdlpPresent(true)) => (UpdatePhase::Building, UpdateAction::BuildDownloader),
        (UpdatePhase::Start, UpdateEvent::YtdlpPresent(false)) => (UpdatePhase::InstallingYtdlp, UpdateAction::InstallYtdlp),
        (UpdatePhase::InstallingYtdlp, UpdateEvent::YtdlpInstalled(true)) => (UpdatePhase::Building, UpdateAction::BuildDownloader),
        (UpdatePhase::InstallingYtdlp, UpdateEvent::YtdlpInstalled(false)) => (UpdatePhase::Failed, UpdateAction::Fail(UpdateFailure::YtdlpInstall)),
        (UpdatePhase::Building, UpdateEvent::DownloaderBuilt(true)) => (UpdatePhase::Updating, UpdateAction::RunUpdate),
        (UpdatePhase::Building, UpdateEvent::DownloaderBuilt(false)) => (UpdatePhase::Failed, UpdateAction::Fail(UpdateFailure::Build)),
        (UpdatePhase::Updating, UpdateEvent::Updated(true)) => (UpdatePhase::CheckingFfmpeg, UpdateAction::CheckFfmpeg),
        (UpdatePhase::Updating, UpdateEvent::Updated(false)) => (UpdatePhase::Failed, UpdateAction::Fail(UpdateFailure::Update)),
        (UpdatePhase::CheckingFfmpeg, UpdateEvent::FfmpegPresent(true)) => (UpdatePhase::Done, UpdateAction::Finish),
        (UpdatePhase::CheckingFfmpeg, UpdateEvent::FfmpegPresent(false)) => (UpdatePhase::InstallingFfmpeg, UpdateAction::InstallFfmpeg),
        (UpdatePhase::InstallingFfmpeg, UpdateEvent::FfmpegInstalled(true)) => (UpdatePhase::Done, UpdateAction::Finish),
        (UpdatePhase::InstallingFfmpeg, UpdateEvent::FfmpegInstalled(false)) => (UpdatePhase::Failed, UpdateAction::Fail(UpdateFailure::FfmpegInstall)),
        _ => (phase, UpdateAction::Ignore),
    }
}

/// One step of `vdl update` (see `update_step_spec`).
pub fn update_step(phase: UpdatePhase, event: UpdateEvent) -> (r: (UpdatePhase, UpdateAction))
    ensures
        r == update_step_spec(phase, event),
{
    match (phase, event) {
        (UpdatePhase::Start, UpdateEvent::YtdlpPresent(present)) => if present {
            (UpdatePhase::Building, UpdateAction::BuildDownloader)
        } else {
            (UpdatePhase::InstallingYtdlp, UpdateAction::InstallYtdlp)
        },
        (UpdatePhase::InstallingYtdlp, UpdateEvent::YtdlpInstalled(ok)) => if ok {
            (UpdatePhase::Building, UpdateAction::BuildDownloader)
        } else {
            (UpdatePhase::Failed, UpdateAction::Fail(UpdateFailure::YtdlpInstall))
        },
        (UpdatePhase::Building, UpdateEvent::DownloaderBuilt(ok)) => if ok {
            (UpdatePhase::Updating, UpdateAction::RunUpdate)
        } else {
            (UpdatePhase::Failed, UpdateAction::Fail(UpdateFailure::Build))
        },
        (UpdatePhase::Updating, UpdateEvent::Updated(ok)) => if ok {
            (UpdatePhase::CheckingFfmpeg, UpdateAction::CheckFfmpeg)
        } else {
            (UpdatePhase::Failed, UpdateAction::Fail(UpdateFailure::Update))
        },
        (UpdatePhase::CheckingFfmpeg, UpdateEvent::FfmpegPresent(present)) => if present {
            (UpdatePhase::Done, UpdateAction::Finish)
        } else {
            (UpdatePhase::InstallingFfmpeg, UpdateAction::InstallFfmpeg)
        },
        (UpdatePhase::InstallingFfmpeg, UpdateEvent::FfmpegInstalled(ok)) => if ok {
            (UpdatePhase::Done, UpdateAction::Finish)
        } else {
            (UpdatePhase::Failed, UpdateAction::Fail(UpdateFailure::FfmpegInstall))
        },
        _ => (phase, UpdateAction::Ignore),
    }
}

} // verus!
