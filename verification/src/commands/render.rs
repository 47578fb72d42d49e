//! How downloads are named and sized for the user: the sanitised file name,
//! human-readable byte counts and durations.

use vstd::prelude::*;
use crate::commands::{CommonRequest, CommonRequestView};
use crate::text::{
    chars_of, decimal, decimal2, digit_char, push_chars, push_decimal, push_decimal2, push_str,
    slice_chars, string_from_chars, trim_bounds, trim_class, TrimClass,
};

verus! {

broadcast use vstd::string::group_string_axioms;

/// What `char::is_alphanumeric` answers for a character outside ASCII (the
/// Unicode `Alphabetic` or `Numeric` properties).
pub uninterp spec fn char_is_alphanumeric(c: char) -> bool;

/// Whether `c` is an ASCII digit or an ASCII letter.
pub open spec fn is_ascii_alphanumeric(c: char) -> bool {
    (48 <= (c as u32) <= 57) || (65 <= (c as u32) <= 90) || (97 <= (c as u32) <= 122)
}

/// What `char::is_alphanumeric` answers: among ASCII characters exactly the
/// digits and letters; beyond ASCII, the Unicode properties.
pub open spec fn alphanumeric(c: char) -> bool {
    if (c as u32) < 128 {
        is_ascii_alphanumeric(c)
    } else {
        char_is_alphanumeric(c)
    }
}

/// `char::is_alphanumeric`, which std documents as the Unicode `Alphabetic`
/// or `Numeric` property. The contract claims that among ASCII characters
/// these are exactly the digits `0`-`9` and the letters `a`-`z`, `A`-`Z`;
/// beyond ASCII it names the answer and says nothing of which characters
/// have it.
#[verifier::external_body]
fn is_alphanumeric(c: char) -> (r: bool)
    ensures
        (c as u32) < 128 ==> r == is_ascii_alphanumeric(c),
        (c as u32) >= 128 ==> r == char_is_alphanumeric(c),
{
    c.is_alphanumeric()
}

/// The longest name, in characters, that sanitising builds before it stops.
pub const MAX_NAME_CHARS: usize = 80;

/// Whether a title character is kept as it is in a file name.
pub open spec fn keeps_char(c: char) -> bool {
    alphanumeric(c) || c == '-'
}

/// One character of the title, given whether it is kept: kept characters
/// are copied, every run of other characters becomes a single `_`. The flag
/// says whether the output ends in such a separator.
pub open spec fn sanitise_step_kept(state: (Seq<char>, bool), c: char, kept: bool) -> (Seq<char>, bool) {
    if kept {
        (state.0.push(c), false)
    } else if state.1 {
        state
    } else {
        (state.0.push('_'), true)
    }
}

/// One character of the title (see `sanitise_step_kept`).
pub open spec fn sanitise_step(state: (Seq<char>, bool), c: char) -> (Seq<char>, bool) {
    sanitise_step_kept(state, c, keeps_char(c))
}

/// The separator-collapsed form of a whole title.
pub open spec fn sanitise_scan(title: Seq<char>) -> (Seq<char>, bool)
    decreases title.len(),
{
    if title.len() == 0 {
        (Seq::empty(), false)
    } else {
        sanitise_step(sanitise_scan(title.drop_last()), title.last())
    }
}

/// At most the first `n` characters of `s`.
pub open spec fn truncate(s: Seq<char>, n: nat) -> Seq<char> {
    if s.len() <= n {
        s
    } else {
        s.take(n as int)
    }
}

/// A title made safe to use as a file name: runs of characters other than
/// letters, digits and `-` collapse to one `_`, the result stops at 80
/// characters, leading and trailing `_` are dropped, and an empty result
/// becomes `download`.
pub open spec fn sanitise_spec(title: Seq<char>) -> Seq<char> {
    let trimmed = trim_class(truncate(sanitise_scan(title).0, 80), TrimClass::Underscore);
    if trimmed.len() == 0 {
        "download"@
    } else {
        trimmed
    }
}

/// The separator-collapsed form of the first `n` title characters, given the
/// character test's answer for each (`-` is kept as well).
pub open spec fn sanitise_scan_by(title: Seq<char>, alphanumeric: Seq<bool>, n: int) -> (Seq<char>, bool)
    decreases n,
{
    if n <= 0 {
        (Seq::empty(), false)
    } else {
        sanitise_step_kept(
            sanitise_scan_by(title, alphanumeric, n - 1),
            title[n - 1],
            alphanumeric[n - 1] || title[n - 1] == '-',
        )
    }
}

/// The sanitised name of a title, given the character test's answer for
/// each of its characters (see `sanitise_spec`).
pub open spec fn sanitise_by_spec(title: Seq<char>, alphanumeric: Seq<bool>) -> Seq<char> {
    let trimmed = trim_class(
        truncate(sanitise_scan_by(title, alphanumeric, title.len() as int).0, 80),
        TrimClass::Underscore,
    );
    if trimmed.len() == 0 {
        "download"@
    } else {
        trimmed
    }
}

proof fn lemma_scan_by_prefix(t: Seq<char>, a: Seq<bool>, j: int, k: int)
    requires
        0 <= j <= k,
    ensures
        sanitise_scan_by(t, a, j).0.is_prefix_of(sanitise_scan_by(t, a, k).0),
    decreases k - j,
{
    if j < k {
        lemma_scan_by_prefix(t, a, j, k - 1);
        let x = sanitise_scan_by(t, a, j).0;
        let y = sanitise_scan_by(t, a, k - 1).0;
        let z = sanitise_scan_by(t, a, k).0;
        assert(y.is_prefix_of(z));
        assert forall|i: int| 0 <= i < x.len() implies x[i] == z[i] by {
            assert(x[i] == y[i]);
            assert(y[i] == z[i]);
        }
    }
}

proof fn lemma_scan_by_matches(t: Seq<char>, a: Seq<bool>, n: int)
    requires
        0 <= n <= t.len(),
        a.len() == t.len(),
        forall|i: int| 0 <= i < t.len() ==> #[trigger] a[i] == alphanumeric(t[i]),
    ensures
        sanitise_scan_by(t, a, n) == sanitise_scan(t.take(n)),
    decreases n,
{
    if n > 0 {
        lemma_scan_by_matches(t, a, n - 1);
        assert(t.take(n).drop_last() =~= t.take(n - 1));
        assert(a[n - 1] == alphanumeric(t[n - 1]));
    } else {
        assert(t.take(0).len() == 0);
    }
}

/// Makes a title safe to use as a file name, given for each of its
/// characters whether the character test finds it alphanumeric (see
/// `sanitise_by_spec`).
pub fn sanitise_filename_with(title: &str, alphanumeric: &Vec<bool>) -> (r: String)
    requires
        alphanumeric@.len() == title@.len(),
    ensures
        r@ == sanitise_by_spec(title@, alphanumeric@),
{
    let chars = chars_of(title);
    let ghost t = chars@;
    let ghost a = alphanumeric@;
    let mut out: Vec<char> = Vec::new();
    let mut last_was_separator = false;
    let mut i: usize = 0;
    while i < chars.len()
        invariant_except_break
            i <= chars@.len(),
            t == chars@,
            a == alphanumeric@,
            a.len() == t.len(),
            (out@, last_was_separator) == sanitise_scan_by(t, a, i as int),
            out@.len() < 80,
        invariant
            i <= chars@.len(),
            t == chars@,
            a == alphanumeric@,
            a.len() == t.len(),
            (out@, last_was_separator) == sanitise_scan_by(t, a, i as int),
            out@.len() <= 80,
        ensures
            out@ == truncate(sanitise_scan_by(t, a, t.len() as int).0, 80),
        decreases chars.len() - i,
    {
        let ch = chars[i];
        if alphanumeric[i] || ch == '-' {
            out.push(ch);
            last_was_separator = false;
        } else if !last_was_separator {
            out.push('_');
            last_was_separator = true;
        }
        i = i + 1;
        if out.len() >= 80 {
            proof {
                assert(out@.len() == 80);
                lemma_scan_by_prefix(t, a, i as int, t.len() as int);
                assert(sanitise_scan_by(t, a, t.len() as int).0.take(80) =~= out@);
            }
            break;
        }
    }
    let (lo, hi) = trim_bounds(&out, TrimClass::Underscore);
    if lo == hi {
        "download".to_owned()
    } else {
        string_from_chars(&slice_chars(&out, lo, hi))
    }
}

/// Makes a video title safe to use as a file name (see `sanitise_spec`).
pub fn sanitise_filename(title: &str) -> (r: String)
    ensures
        r@ == sanitise_spec(title@),
{
    let chars = chars_of(title);
    let mut answers: Vec<bool> = Vec::new();
    let mut i: usize = 0;
    while i < chars.len()
        invariant
            i <= chars@.len(),
            chars@ == title@,
            answers@.len() == i,
            forall|k: int| 0 <= k < i ==> #[trigger] answers@[k] == alphanumeric(chars@[k]),
        decreases chars.len() - i,
    {
        answers.push(is_alphanumeric(chars[i]));
        i = i + 1;
    }
    proof {
        lemma_scan_by_matches(title@, answers@, title@.len() as int);
        assert(title@.take(title@.len() as int) =~= title@);
    }
    sanitise_filename_with(title, &answers)
}

/// `a / b` rounded to the nearest integer, halves going to the even one.
pub open spec fn div_round_even(a: nat, b: nat) -> nat
    recommends
        b > 0,
{
    let q = a / b;
    let rem = a % b;
    if 2 * rem > b {
        q + 1
    } else if 2 * rem < b {
        q
    } else if q % 2 == 0 {
        q
    } else {
        q + 1
    }
}

/// The distance between neighbouring `f64` values at the magnitude of `n`
/// (1 below 2^53, doubling with each further bit).
pub open spec fn f64_spacing(n: nat) -> nat {
    if n < 0x20_0000_0000_0000 {
        1
    } else if n < 0x40_0000_0000_0000 {
        2
    } else if n < 0x80_0000_0000_0000 {
        4
    } else if n < 0x100_0000_0000_0000 {
        8
    } else if n < 0x200_0000_0000_0000 {
        16
    } else if n < 0x400_0000_0000_0000 {
        32
    } else if n < 0x800_0000_0000_0000 {
        64
    } else if n < 0x1000_0000_0000_0000 {
        128
    } else if n < 0x2000_0000_0000_0000 {
        256
    } else if n < 0x4000_0000_0000_0000 {
        512
    } else if n < 0x8000_0000_0000_0000 {
        1024
    } else {
        2048
    }
}

/// `n as f64`: the nearest `f64`, ties going to an even significand.
pub open spec fn as_f64(n: nat) -> nat {
    div_round_even(n, f64_spacing(n)) * f64_spacing(n)
}

/// The unit that a byte count is shown in: the largest of B, KB, MB, GB and
/// TB (powers of 1024) that the value reaches.
pub open spec fn size_unit_index(v: nat) -> nat {
    if v >= 0x100_0000_0000 {
        4
    } else if v >= 0x4000_0000 {
        3
    } else if v >= 0x10_0000 {
        2
    } else if v >= 0x400 {
        1
    } else {
        0
    }
}

/// 1024 to the power `i`.
pub open spec fn unit_divisor(i: nat) -> nat {
    if i == 0 {
        1
    } else if i == 1 {
        0x400
    } else if i == 2 {
        0x10_0000
    } else if i == 3 {
        0x4000_0000
    } else {
        0x100_0000_0000
    }
}

pub open spec fn unit_name(i: nat) -> Seq<char> {
    if i == 0 {
        "B"@
    } else if i == 1 {
        "KB"@
    } else if i == 2 {
        "MB"@
    } else if i == 3 {
        "GB"@
    } else {
        "TB"@
    }
}

/// A byte count as the user reads it: whole bytes below 1 KB; otherwise the
/// value in the largest unit it reaches, rounded to a whole number from 10
/// upwards and to one decimal below 10 (as `{:.0}` and `{:.1}` render the
/// `f64` value, halves going to even).
pub open spec fn format_size_spec(bytes: nat) -> Seq<char> {
    let v = as_f64(bytes);
    let i = size_unit_index(v);
    let d = unit_divisor(i);
    if i == 0 {
        decimal(bytes) + " B"@
    } else if v >= 10 * d {
        decimal(div_round_even(v, d)) + " "@ + unit_name(i)
    } else {
        let t = div_round_even(10 * v, d);
        decimal(t / 10) + "."@ + seq![digit_char(t % 10)] + " "@ + unit_name(i)
    }
}

fn div_round_even_exec(a: u128, b: u128) -> (r: u128)
    requires
        b > 0,
        a < 0x1_0000_0000_0000_0000_0000_0000,
        b < 0x1_0000_0000_0000_0000_0000_0000,
    ensures
        r == div_round_even(a as nat, b as nat),
{
    let q = a / b;
    let rem = a % b;
    if 2 * rem > b {
        q + 1
    } else if 2 * rem < b {
        q
    } else if q % 2 == 0 {
        q
    } else {
        q + 1
    }
}

fn f64_spacing_exec(n: u64) -> (r: u128)
    ensures
        r == f64_spacing(n as nat),
{
    if n < 0x20_0000_0000_0000 {
        1
    } else if n < 0x40_0000_0000_0000 {
        2
    } else if n < 0x80_0000_0000_0000 {
        4
    } else if n < 0x100_0000_0000_0000 {
        8
    } else if n < 0x200_0000_0000_0000 {
        16
    } else if n < 0x400_0000_0000_0000 {
        32
    } else if n < 0x800_0000_0000_0000 {
        64
    } else if n < 0x1000_0000_0000_0000 {
        128
    } else if n < 0x2000_0000_0000_0000 {
        256
    } else if n < 0x4000_0000_0000_0000 {
        512
    } else if n < 0x8000_0000_0000_0000 {
        1024
    } else {
        2048
    }
}

/// Renders a byte count with a human-readable unit (see `format_size_spec`).
pub fn format_size(bytes: u64) -> (r: String)
    ensures
        r@ == format_size_spec(bytes as nat),
{
    let spacing = f64_spacing_exec(bytes);
    let q = div_round_even_exec(bytes as u128, spacing);
    assert(q <= bytes as nat / spacing as nat + 1);
    assert(q * spacing <= bytes + spacing) by (nonlinear_arith)
        requires
            q <= bytes as nat / spacing as nat + 1,
            spacing > 0,
    {
        assert((bytes as nat / spacing as nat) * spacing <= bytes);
    }
    let v: u128 = q * spacing;
    let mut out: Vec<char> = Vec::new();
    let (i, d, unit): (u128, u128, &str) = if v >= 0x100_0000_0000 {
        (4, 0x100_0000_0000, "TB")
    } else if v >= 0x4000_0000 {
        (3, 0x4000_0000, "GB")
    } else if v >= 0x10_0000 {
        (2, 0x10_0000, "MB")
    } else if v >= 0x400 {
        (1, 0x400, "KB")
    } else {
        (0, 1, "B")
    };
    assert(i == size_unit_index(v as nat) && d == unit_divisor(i as nat) && unit@ == unit_name(
        i as nat,
    ));
    if i == 0 {
        push_decimal(&mut out, bytes);
        push_str(&mut out, " B");
    } else if v >= 10 * d {
        let n = div_round_even_exec(v, d);
        assert(n <= v);
        push_decimal(&mut out, n as u64);
        push_str(&mut out, " ");
        push_str(&mut out, unit);
    } else {
        let t = div_round_even_exec(10 * v, d);
        assert(t <= 101) by (nonlinear_arith)
            requires
                t <= (10 * v) as nat / d as nat + 1,
                v < 10 * d,
                d > 0,
        {
        }
        push_decimal(&mut out, (t / 10) as u64);
        push_str(&mut out, ".");
        out.push(digit_of(t % 10));
        push_str(&mut out, " ");
        push_str(&mut out, unit);
    }
    string_from_chars(&out)
}

fn digit_of(d: u128) -> (c: char)
    requires
        d < 10,
    ensures
        c == digit_char(d as nat),
{
    if d == 0 {
        '0'
    } else if d == 1 {
        '1'
    } else if d == 2 {
        '2'
    } else if d == 3 {
        '3'
    } else if d == 4 {
        '4'
    } else if d == 5 {
        '5'
    } else if d == 6 {
        '6'
    } else if d == 7 {
        '7'
    } else if d == 8 {
        '8'
    } else {
        '9'
    }
}

/// A playlist entry's length as `H:MM:SS`, or `Unknown` when not reported.
pub open spec fn playlist_duration_spec(total_seconds: Option<nat>) -> Seq<char> {
    match total_seconds {
        None => "Unknown"@,
        Some(t) => decimal(t / 3600) + ":"@ + decimal2((t % 3600) / 60) + ":"@ + decimal2(t % 60),
    }
}

/// Renders a playlist entry's length, already rounded to whole seconds.
pub fn format_playlist_duration(total_seconds: Option<u64>) -> (r: String)
    ensures
        r@ == playlist_duration_spec(
            match total_seconds {
                Some(t) => Some(t as nat),
                None => None,
            },
        ),
{
    match total_seconds {
        None => "Unknown".to_owned(),
        Some(t) => {
            let mut out: Vec<char> = Vec::new();
            push_decimal(&mut out, t / 3600);
            push_str(&mut out, ":");
            push_decimal2(&mut out, (t % 3600) / 60);
            push_str(&mut out, ":");
            push_decimal2(&mut out, t % 60);
            string_from_chars(&out)
        },
    }
}

/// The file a download is saved as: the sanitised title, a dot, the format.
pub open spec fn download_filename_spec(title: Seq<char>, format: Seq<char>) -> Seq<char> {
    sanitise_spec(title) + "."@ + format
}

/// The file name a video is saved under.
pub fn download_filename(title: &str, format: &str) -> (r: String)
    ensures
        r@ == download_filename_spec(title@, format@),
{
    let name = sanitise_filename(title);
    let mut out = chars_of(name.as_str());
    push_str(&mut out, ".");
    push_str(&mut out, format);
    string_from_chars(&out)
}

/// The watch page of a YouTube video id picked from search results.
pub fn youtube_watch_url(id: &str) -> (r: String)
    ensures
        r@ == "https://www.youtube.com/watch?v="@ + id@,
{
    let mut out: Vec<char> = Vec::new();
    push_str(&mut out, "https://www.youtube.com/watch?v=");
    push_str(&mut out, id);
    string_from_chars(&out)
}

/// Whether the user is asked to confirm before a download starts.
pub fn needs_confirmation(confirm_before_download: bool, yes: bool) -> (r: bool)
    ensures
        r == (confirm_before_download && !yes),
{
    confirm_before_download && !yes
}

/// The audio codec preference that a container asks the downloader for.
#[derive(Clone, Copy, Debug, PartialEq, Eq, Structural)]
pub enum AudioCodec {
    Mp3,
    Aac,
    Opus,
    Any,
}

/// The audio codec for each audio container: mp3, AAC for m4a, opus, or any.
pub open spec fn audio_codec_spec(format: Seq<char>) -> AudioCodec {
    if format == "mp3"@ {
        AudioCodec::Mp3
    } else if format == "m4a"@ {
        AudioCodec::Aac
    } else if format == "opus"@ {
        AudioCodec::Opus
    } else {
        AudioCodec::Any
    }
}

/// The audio codec that a download in the given container prefers.
pub fn audio_codec_for_format(format: &str) -> (r: AudioCodec)
    ensures
        r == audio_codec_spec(format@),
{
    if crate::text::str_is(format, "mp3") {
        AudioCodec::Mp3
    } else if crate::text::str_is(format, "m4a") {
        AudioCodec::Aac
    } else if crate::text::str_is(format, "opus") {
        AudioCodec::Opus
    } else {
        AudioCodec::Any
    }
}

/// The video quality selection that a `--quality` value asks the downloader for.
#[derive(Clone, Copy, Debug, PartialEq, Eq, Structural)]
pub enum VideoQuality {
    Best,
    High,
    Medium,
    Low,
    CustomHeight(u32),
    Worst,
}

/// best, 1080 (high), 720 (medium), 480 (low), a 360-pixel height, worst;
/// anything else selects the best.
pub open spec fn video_quality_spec(value: Seq<char>) -> VideoQuality {
    if value == "best"@ {
        VideoQuality::Best
    } else if value == "1080"@ {
        VideoQuality::High
    } else if value == "720"@ {
        VideoQuality::Medium
    } else if value == "480"@ {
        VideoQuality::Low
    } else if value == "360"@ {
        VideoQuality::CustomHeight(360)
    } else if value == "worst"@ {
        VideoQuality::Worst
    } else {
        VideoQuality::Best
    }
}

/// The video quality selection for a `--quality` value.
pub fn map_quality(value: &str) -> (r: VideoQuality)
    ensures
        r == video_quality_spec(value@),
{
    if crate::text::str_is(value, "best") {
        VideoQuality::Best
    } else if crate::text::str_is(value, "1080") {
        VideoQuality::High
    } else if crate::text::str_is(value, "720") {
        VideoQuality::Medium
    } else if crate::text::str_is(value, "480") {
        VideoQuality::Low
    } else if crate::text::str_is(value, "360") {
        VideoQuality::CustomHeight(360)
    } else if crate::text::str_is(value, "worst") {
        VideoQuality::Worst
    } else {
        VideoQuality::Best
    }
}

/// Which streams a download fetches, and what it asks the downloader for.
#[derive(Clone, Copy, Debug, PartialEq, Eq, Structural)]
pub enum DownloadPlan {
    /// The audio stream alone, in the preferred codec, at the best quality.
    AudioOnly(AudioCodec),
    /// The video stream alone (AVC1) at the given quality.
    VideoOnly(VideoQuality),
    /// Video (AVC1) at the given quality merged with the best audio.
    Full(VideoQuality),
}

/// An audio-only request fetches audio in its container's codec; else a
/// video-only request fetches video alone; else video and audio are merged.
pub open spec fn download_plan_spec(request: CommonRequestView) -> DownloadPlan {
    if request.audio_only {
        DownloadPlan::AudioOnly(audio_codec_spec(request.format))
    } else if request.video_only {
        DownloadPlan::VideoOnly(video_quality_spec(request.quality))
    } else {
        DownloadPlan::Full(video_quality_spec(request.quality))
    }
}

/// Chooses how a resolved request is downloaded.
pub fn download_plan(request: &CommonRequest) -> (r: DownloadPlan)
    ensures
        r == download_plan_spec(request@),
{
    if request.audio_only {
        DownloadPlan::AudioOnly(audio_codec_for_format(request.format.as_str()))
    } else if request.video_only {
        DownloadPlan::VideoOnly(map_quality(request.quality.as_str()))
    } else {
        DownloadPlan::Full(map_quality(request.quality.as_str()))
    }
}

} // verus!
