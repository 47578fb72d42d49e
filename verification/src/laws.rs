//! Properties that hold across the library's functions and over all inputs.

use vstd::prelude::*;
use crate::commands::{
    common_format_choice, is_audio_format_spec, normalize_common_spec, normalize_spotify_spec,
    normalized_text, valid_common_format, valid_quality, NormalizeErrorView, Platform,
};
use crate::config::{
    body_components, component_text, config_path_spec, display_path_spec, expand_tilde_spec,
    has_leading_cur_dir, is_component, join_path, lemma_components_bounds, opt_view,
    path_components, strip_home, Config,
};
use crate::cli::{CommonArgs, SpotifyArgs};
use crate::sandbox::{has_path_segment, termux_bin_spec, termux_path_spec};
use crate::server::{reply_to, subscriptions_after, ClientMessage, ClientReply};
use crate::text::{
    is_white_space, lemma_strip_start_shape, lemma_trim_class_shape, strip_end, strip_start, trim_class,
    trim_spec, TrimClass,
};
use crate::commands::render::{
    audio_codec_spec, char_is_alphanumeric, download_plan_spec, keeps_char, sanitise_by_spec,
    sanitise_scan, sanitise_scan_by, sanitise_spec, truncate, video_quality_spec, AudioCodec,
    DownloadPlan,
};
use crate::server::{download_request_spec, session_request_spec};
use crate::downloader::{cookie_choice, CookieConflict, CookieSource};
use crate::commands::update::{ffmpeg_version_spec, first_word, leading_word};
use crate::sandbox::{update_step_spec, UpdateAction, UpdateEvent, UpdatePhase};
use crate::server::{count_finished, distinct_ids, eviction_count, is_eviction_plan, is_finished_id, SessionEntry};

verus! {

broadcast use vstd::string::group_string_axioms;

/// A resolved download request is consistent: its format and quality are
/// among the accepted values, it never asks for audio only and video only at
/// once, an audio container always means audio only, and it has exactly one
/// of a URL and a search query. The check of an audio format against
/// `--video-only` that comes last is never what fails.
pub proof fn normalized_request_is_consistent(
    platform: Platform,
    args: CommonArgs,
    cfg: Config,
    home: Option<Seq<char>>,
    cwd: Option<Seq<char>>,
    prompted: Option<Seq<char>>,
)
    ensures
        match normalize_common_spec(platform, args, cfg, home, cwd, prompted) {
            Ok(req) => {
                &&& valid_common_format(req.format)
                &&& valid_quality(req.quality)
                &&& !(req.audio_only && req.video_only)
                &&& is_audio_format_spec(req.format) ==> req.audio_only
                &&& (req.url is Some) != (req.search is Some)
                &&& (cwd is None || (cwd->0.len() > 0 && cwd->0[0] == '/')) ==> req.output_dir.len() > 0
                    && req.output_dir[0] == '/'
            },
            Err(e) => e != NormalizeErrorView::AudioFormatWithVideoOnly,
        },
{
}

/// How a resolved request is downloaded: an audio container is fetched as
/// audio alone in that container's codec, `--audio-only` without a format
/// saves mp3 audio, and `--video-only` fetches the video stream alone at the
/// request's quality.
pub proof fn resolved_request_download_plan(
    platform: Platform,
    args: CommonArgs,
    cfg: Config,
    home: Option<Seq<char>>,
    cwd: Option<Seq<char>>,
    prompted: Option<Seq<char>>,
)
    ensures
        normalize_common_spec(platform, args, cfg, home, cwd, prompted) matches Ok(req) ==> {
            &&& is_audio_format_spec(req.format) ==> download_plan_spec(req) == DownloadPlan::AudioOnly(
                audio_codec_spec(req.format),
            )
            &&& args.audio_only && args.format is None ==> req.format == "mp3"@
                && download_plan_spec(req) == DownloadPlan::AudioOnly(AudioCodec::Mp3)
            &&& args.video_only ==> download_plan_spec(req) == DownloadPlan::VideoOnly(
                video_quality_spec(req.quality),
            )
        },
{
    normalized_request_is_consistent(platform, args, cfg, home, cwd, prompted);
}

/// The user is asked for a search query only when neither a URL nor a
/// query was given; an answer that holds more than white space is then taken
/// as the query, and when no question was asked an answer changes nothing.
pub proof fn search_prompt_is_answered(
    platform: Platform,
    args: CommonArgs,
    cfg: Config,
    home: Option<Seq<char>>,
    cwd: Option<Seq<char>>,
    answer: Seq<char>,
)
    ensures
        normalize_common_spec(platform, args, cfg, home, cwd, None) == Err::<crate::commands::CommonRequestView, NormalizeErrorView>(NormalizeErrorView::NeedsSearchQuery)
            ==> normalized_text(opt_view(args.url)) is None && normalized_text(opt_view(args.search)) is None,
        normalize_common_spec(platform, args, cfg, home, cwd, None) == Err::<crate::commands::CommonRequestView, NormalizeErrorView>(NormalizeErrorView::NeedsSearchQuery)
            && trim_spec(answer).len() > 0 ==> match normalize_common_spec(platform, args, cfg, home, cwd, Some(answer)) {
                Ok(req) => req.search == Some(answer) && req.url is None,
                Err(e) => e != NormalizeErrorView::NeedsSearchQuery && e != NormalizeErrorView::EmptySearchQuery,
            },
        normalize_common_spec(platform, args, cfg, home, cwd, None) != Err::<crate::commands::CommonRequestView, NormalizeErrorView>(NormalizeErrorView::NeedsSearchQuery)
            ==> normalize_common_spec(platform, args, cfg, home, cwd, Some(answer))
                == normalize_common_spec(platform, args, cfg, home, cwd, None),
{
}

/// The user is asked for a Spotify URL only when none was given; the answer
/// then becomes the URL, and when no question was asked it changes nothing.
pub proof fn spotify_prompt_is_answered(
    args: SpotifyArgs,
    cfg: Config,
    home: Option<Seq<char>>,
    cwd: Option<Seq<char>>,
    answer: Seq<char>,
)
    ensures
        (normalize_spotify_spec(args, cfg, home, cwd, None) == Err::<crate::commands::SpotifyRequestView, NormalizeErrorView>(NormalizeErrorView::NeedsSpotifyUrl))
            <==> normalized_text(opt_view(args.url)) is None,
        normalized_text(opt_view(args.url)) is None ==> match normalize_spotify_spec(args, cfg, home, cwd, Some(answer)) {
            Ok(req) => req.url == answer,
            Err(e) => e != NormalizeErrorView::NeedsSpotifyUrl,
        },
        normalized_text(opt_view(args.url)) is Some ==> normalize_spotify_spec(args, cfg, home, cwd, Some(answer))
            == normalize_spotify_spec(args, cfg, home, cwd, None),
{
}

/// After a client subscribes to a session it is sent that session's events,
/// after it unsubscribes it is not; other sessions are unaffected, and a
/// ping changes nothing and is answered with a pong.
pub proof fn subscriptions_follow_messages(s: Set<u128>, msg: ClientMessage, other: u128)
    ensures
        msg matches ClientMessage::Subscribe(id) ==> subscriptions_after(s, msg).contains(id),
        msg matches ClientMessage::Unsubscribe(id) ==> !subscriptions_after(s, msg).contains(id),
        (match msg {
            ClientMessage::Subscribe(id) => id != other,
            ClientMessage::Unsubscribe(id) => id != other,
            ClientMessage::Ping => true,
        }) ==> (subscriptions_after(s, msg).contains(other) == s.contains(other)),
        msg == ClientMessage::Ping ==> subscriptions_after(s, msg) == s && reply_to(msg) == ClientReply::Pong,
        msg != ClientMessage::Ping ==> reply_to(msg) == ClientReply::NoReply,
{
}

/// Putting Termux's binary directory on `PATH` is done once: the updated
/// `PATH` holds the directory as an entry, so it needs no further change.
pub proof fn termux_path_update_is_idempotent(current: Seq<char>)
    ensures
        termux_path_spec(current) matches Some(updated) ==> has_path_segment(updated, termux_bin_spec())
            && termux_path_spec(updated) is None,
{
    reveal_strlit("/data/data/com.termux/files/usr/bin");
    reveal_strlit(":");
    if let Some(updated) = termux_path_spec(current) {
        let bin = termux_bin_spec();
        let j = bin.len() as int;
        assert(updated.subrange(0, j) =~= bin);
        assert(forall|m: int| 0 <= m < j ==> bin[m] != ':');
        assert(forall|m: int| 0 <= m < j ==> updated[m] == bin[m]);
        if current.len() > 0 {
            assert(updated[j] == ':');
        }
        assert(has_path_segment(updated, bin));
    }
}

/// Expanding `~` twice is expanding it once, for a home directory that does
/// not itself start with `~`.
pub proof fn tilde_expansion_is_idempotent(path: Seq<char>, home: Seq<char>)
    requires
        home.len() > 0,
        home[0] != '~',
    ensures
        expand_tilde_spec(expand_tilde_spec(path, home), home) == expand_tilde_spec(path, home),
{
    reveal_strlit("~");
    reveal_strlit("~/");
    let e = expand_tilde_spec(path, home);
    if path == "~"@ {
        assert(e == home);
        assert(e != "~"@);
        if "~/"@.is_prefix_of(e) {
            assert(e.subrange(0, 2)[0] == e[0]);
        }
    } else if "~/"@.is_prefix_of(path) {
        let j = join_path(home, path.skip(2));
        assert(j.len() > 0 && j[0] != '~');
        assert(j != "~"@);
        if "~/"@.is_prefix_of(j) {
            assert(j.subrange(0, 2)[0] == j[0]);
        }
    }
}

/// A relative path whose first and last segments are names: not empty, no
/// separator at either end, not starting with a `.` segment and not ending
/// in one.
pub open spec fn is_plain_relative(r: Seq<char>) -> bool {
    &&& r.len() > 0
    &&& r[0] != '/'
    &&& r.last() != '/'
    &&& !has_leading_cur_dir(r)
    &&& !(r.last() == '.' && (r.len() == 1 || r[r.len() - 2] == '/'))
}

spec fn shift_positions(b: Seq<(int, int)>, d: int) -> Seq<(int, int)> {
    b.map_values(|x: (int, int)| (x.0 + d, x.1 + d))
}

proof fn lemma_body_shift(q: Seq<char>, r: Seq<char>, s: int, i: int)
    requires
        0 <= s <= i <= r.len(),
    ensures
        body_components(q + r, q.len() + s, q.len() + i) == shift_positions(body_components(r, s, i), q.len() as int),
    decreases r.len() - i,
{
    let p = q + r;
    let d = q.len() as int;
    if i >= r.len() {
        assert(p.subrange(d + s, p.len() as int) =~= r.subrange(s, r.len() as int));
        if is_component(r.subrange(s, r.len() as int)) {
            assert(shift_positions(seq![(s, r.len() as int)], d) =~= seq![(d + s, p.len() as int)]);
        } else {
            assert(shift_positions(Seq::<(int, int)>::empty(), d) =~= Seq::<(int, int)>::empty());
        }
    } else {
        assert(p[d + i] == r[i]);
        assert(p.subrange(d + s, d + i) =~= r.subrange(s, i));
        if r[i] == '/' {
            lemma_body_shift(q, r, i + 1, i + 1);
            let rest = body_components(r, i + 1, i + 1);
            if is_component(r.subrange(s, i)) {
                assert(shift_positions(seq![(s, i)] + rest, d) =~= seq![(d + s, d + i)] + shift_positions(rest, d));
            }
        } else {
            lemma_body_shift(q, r, s, i + 1);
        }
    }
}

proof fn lemma_body_trailing_slash(h: Seq<char>, s: int, i: int)
    requires
        0 <= s <= i <= h.len(),
    ensures
        body_components(h + seq!['/'], s, i) == body_components(h, s, i),
    decreases h.len() - i,
{
    let p = h + seq!['/'];
    if i == h.len() {
        assert(p[i] == '/');
        assert(p.subrange(s, i) =~= h.subrange(s, h.len() as int));
        assert(p.subrange(i + 1, p.len() as int).len() == 0);
        assert(body_components(p, i + 1, i + 1) =~= Seq::<(int, int)>::empty());
        if is_component(h.subrange(s, h.len() as int)) {
            assert(seq![(s, i)] + Seq::<(int, int)>::empty() =~= seq![(s, i)]);
        }
    } else {
        assert(p[i] == h[i]);
        assert(p.subrange(s, i) =~= h.subrange(s, i));
        if h[i] == '/' {
            lemma_body_trailing_slash(h, i + 1, i + 1);
        } else {
            lemma_body_trailing_slash(h, s, i + 1);
        }
    }
}

proof fn lemma_body_split(q: Seq<char>, r: Seq<char>, s: int, i: int)
    requires
        q.len() > 0,
        q.last() == '/',
        0 <= s <= i < q.len(),
    ensures
        body_components(q + r, s, i) == body_components(q, s, i) + body_components(
            q + r,
            q.len() as int,
            q.len() as int,
        ),
    decreases q.len() - i,
{
    let p = q + r;
    let tail = body_components(p, q.len() as int, q.len() as int);
    assert(p[i] == q[i]);
    assert(p.subrange(s, i) =~= q.subrange(s, i));
    let e = if is_component(q.subrange(s, i)) {
        seq![(s, i)]
    } else {
        Seq::<(int, int)>::empty()
    };
    if q[i] == '/' {
        assert(body_components(q, s, i) =~= e + body_components(q, i + 1, i + 1));
        assert(body_components(p, s, i) =~= e + body_components(p, i + 1, i + 1));
        if i + 1 == q.len() {
            assert(q.subrange(i + 1, q.len() as int).len() == 0);
            assert(body_components(q, i + 1, i + 1) =~= Seq::<(int, int)>::empty());
            assert(e + Seq::<(int, int)>::empty() =~= e);
        } else {
            lemma_body_split(q, r, i + 1, i + 1);
            assert((e + body_components(q, i + 1, i + 1)) + tail =~= e + (body_components(q, i + 1, i + 1)
                + tail));
        }
    } else {
        lemma_body_split(q, r, s, i + 1);
    }
}

proof fn lemma_first_component(x: Seq<char>, s: int, i: int)
    requires
        0 <= s <= i <= x.len(),
        s < x.len(),
        x[s] != '/',
        !(x[s] == '.' && (s + 1 == x.len() || x[s + 1] == '/')),
        forall|m: int| s <= m < i ==> x[m] != '/',
    ensures
        body_components(x, s, i).len() > 0,
        body_components(x, s, i)[0].0 == s,
    decreases x.len() - i,
{
    reveal_strlit(".");
    assert("."@ =~= seq!['.']);
    if i >= x.len() {
        if x.subrange(s, x.len() as int) == "."@ {
            assert(x.subrange(s, x.len() as int)[0] == x[s]);
        }
    } else if x[i] == '/' {
        assert(i > s);
        if x.subrange(s, i) == "."@ {
            assert(x.subrange(s, i)[0] == x[s]);
        }
    } else {
        lemma_first_component(x, s, i + 1);
    }
}

proof fn lemma_last_component(x: Seq<char>, s: int, i: int)
    requires
        0 <= s <= i <= x.len(),
        x.len() > 0,
        x.last() != '/',
        !(x.last() == '.' && (x.len() == 1 || x[x.len() - 2] == '/')),
        s == 0 || x[s - 1] == '/',
        forall|m: int| s <= m < i ==> x[m] != '/',
    ensures
        body_components(x, s, i).len() > 0,
        body_components(x, s, i).last().1 == x.len(),
    decreases x.len() - i,
{
    reveal_strlit(".");
    assert("."@ =~= seq!['.']);
    if i >= x.len() {
        assert(s < x.len());
        if x.subrange(s, x.len() as int) == "."@ {
            assert(x.subrange(s, x.len() as int)[0] == x[s]);
            assert(s == x.len() - 1);
        }
    } else if x[i] == '/' {
        assert(i + 1 < x.len());
        lemma_last_component(x, i + 1, i + 1);
    } else {
        lemma_last_component(x, s, i + 1);
    }
}

/// Showing a path under the home directory undoes expanding `~/` in it,
/// whatever the home directory, for a rest whose first and last segments
/// are names.
pub proof fn display_undoes_tilde_expansion(home: Seq<char>, rest: Seq<char>)
    requires
        is_plain_relative(rest),
    ensures
        display_path_spec(expand_tilde_spec("~/"@ + rest, home), Some(home)) == "~/"@ + rest,
{
    reveal_strlit("~");
    reveal_strlit("~/");
    let t = "~/"@ + rest;
    assert("~/"@.is_prefix_of(t));
    assert(t != "~"@);
    assert(t.skip(2) =~= rest);
    let p = expand_tilde_spec(t, home);
    let q = if home.len() == 0 || home.last() == '/' {
        home
    } else {
        home + seq!['/']
    };
    assert(p =~= q + rest);
    let d = q.len() as int;
    let rb = body_components(rest, 0, 0);
    lemma_first_component(rest, 0, 0);
    lemma_last_component(rest, 0, 0);
    lemma_body_shift(q, rest, 0, 0);
    let sr = shift_positions(rb, d);
    let st: int = if home.len() > 0 && (home[0] == '/' || has_leading_cur_dir(home)) {
        1
    } else {
        0
    };
    if home.len() > 0 {
        assert(p[0] == home[0]);
        if home.len() >= 2 {
            assert(p[1] == home[1]);
        } else if home[0] != '/' {
            assert(p[1] == '/');
        }
    }
    assert((p.len() > 0 && (p[0] == '/' || has_leading_cur_dir(p))) == (st == 1));
    let hb = body_components(home, st, st);
    let pb = body_components(p, st, st);
    if st < d {
        lemma_body_split(q, rest, st, st);
        if q != home {
            lemma_body_trailing_slash(home, st, st);
        }
        assert(pb == hb + sr);
    } else {
        assert(home.len() == 0 || home =~= seq!['/']);
        assert(home.subrange(st, home.len() as int).len() == 0);
        assert(hb =~= Seq::<(int, int)>::empty());
        assert(pb == hb + sr);
    }
    let pre = if st == 1 {
        seq![(0int, 1int)]
    } else {
        Seq::<(int, int)>::empty()
    };
    let hc = path_components(home);
    let pc = path_components(p);
    assert(hc =~= pre + hb);
    assert(pc =~= hc + sr);
    lemma_components_bounds(home);
    assert forall|k: int| 0 <= k < hc.len() implies #[trigger] component_text(p, pc[k]) == component_text(home, hc[k]) by {
        assert(pc[k] == hc[k]);
        assert(p.subrange(hc[k].0, hc[k].1) =~= home.subrange(hc[k].0, hc[k].1));
    }
    assert(sr.len() == rb.len() && sr[0] == (d, rb[0].1 + d) && sr.last() == (rb.last().0 + d, d + rest.len()));
    if home.len() > 0 {
        if st == 0 {
            lemma_first_component(home, 0, 0);
        }
        assert(hc.len() > 0);
        assert(pc[hc.len() as int] == sr[0]);
        assert(pc.last() == sr.last());
        assert(p.subrange(d, p.len() as int) =~= rest);
    } else {
        assert(hc.len() == 0);
        assert(pc.last() == sr.last());
        assert(p.take(p.len() as int) =~= rest);
    }
    assert(strip_home(p, home) == Some(rest));
}

/// The config file lives at `.config/vdl/config.yaml` under the home directory.
pub proof fn config_file_is_under_home(home: Seq<char>)
    requires
        home.len() > 0,
        home.last() != '/',
    ensures
        config_path_spec(home) == home + "/.config/vdl/config.yaml"@,
{
    reveal_strlit(".config/vdl");
    reveal_strlit("config.yaml");
    reveal_strlit("/.config/vdl/config.yaml");
    assert(config_path_spec(home) =~= home + "/.config/vdl/config.yaml"@);
}

/// The shape of a sanitised file name: at most 80 characters, each kept
/// from the title or a `_`, not starting or ending with `_`, and never two
/// `_` in a row.
pub open spec fn is_safe_name(n: Seq<char>) -> bool {
    &&& 0 < n.len() <= 80
    &&& forall|i: int| 0 <= i < n.len() ==> keeps_char(#[trigger] n[i]) || n[i] == '_'
    &&& n[0] != '_'
    &&& n.last() != '_'
    &&& forall|i: int| 0 <= i < n.len() - 1 ==> !(#[trigger] n[i] == '_' && n[i + 1] == '_')
}

proof fn lemma_scan_shape(t: Seq<char>)
    ensures
        ({
            let (o, f) = sanitise_scan(t);
            &&& o.len() <= t.len()
            &&& forall|i: int| 0 <= i < o.len() ==> keeps_char(#[trigger] o[i]) || o[i] == '_'
            &&& f ==> o.len() > 0 && o.last() == '_'
            &&& !f && o.len() > 0 ==> keeps_char(o.last())
            &&& !keeps_char('_') ==> forall|i: int|
                0 <= i < o.len() - 1 ==> !(#[trigger] o[i] == '_' && o[i + 1] == '_')
        }),
    decreases t.len(),
{
    if t.len() > 0 {
        lemma_scan_shape(t.drop_last());
        let (o, f) = sanitise_scan(t.drop_last());
        let (o2, f2) = sanitise_scan(t);
        let c = t.last();
        if keeps_char(c) {
            assert(o2 == o.push(c));
            assert forall|i: int| 0 <= i < o2.len() implies keeps_char(#[trigger] o2[i]) || o2[i] == '_' by {
                if i < o.len() {
                    assert(o2[i] == o[i]);
                }
            }
            if !keeps_char('_') {
                assert forall|i: int| 0 <= i < o2.len() - 1 implies !(#[trigger] o2[i] == '_' && o2[i + 1] == '_') by {
                    if i < o.len() - 1 {
                        assert(o2[i] == o[i] && o2[i + 1] == o[i + 1]);
                    } else {
                        assert(o2[i + 1] == c);
                    }
                }
            }
        } else if !f {
            assert(o2 == o.push('_'));
            assert forall|i: int| 0 <= i < o2.len() implies keeps_char(#[trigger] o2[i]) || o2[i] == '_' by {
                if i < o.len() {
                    assert(o2[i] == o[i]);
                }
            }
            if !keeps_char('_') {
                assert forall|i: int| 0 <= i < o2.len() - 1 implies !(#[trigger] o2[i] == '_' && o2[i + 1] == '_') by {
                    if i < o.len() - 1 {
                        assert(o2[i] == o[i] && o2[i + 1] == o[i + 1]);
                    } else {
                        assert(o2[i] == o.last());
                    }
                }
            }
        }
    }
}

/// A sanitised file name is `download` or has the shape of `is_safe_name`.
pub proof fn sanitised_name_is_safe(title: Seq<char>)
    ensures
        sanitise_spec(title) == "download"@ || is_safe_name(sanitise_spec(title)),
{
    assert(!keeps_char('_'));
    lemma_scan_shape(title);
    let o = sanitise_scan(title).0;
    let raw = truncate(o, 80);
    assert(forall|i: int| 0 <= i < raw.len() ==> raw[i] == o[i]);
    let (a, b) = lemma_trim_class_shape(raw, TrimClass::Underscore);
    let n = trim_class(raw, TrimClass::Underscore);
    if n.len() > 0 {
        assert(n == raw.subrange(a, b));
        assert forall|i: int| 0 <= i < n.len() implies keeps_char(#[trigger] n[i]) || n[i] == '_' by {
            assert(n[i] == o[a + i]);
        }
        assert(n[0] == raw[a]);
        assert(n.last() == raw[b - 1]);
        if !keeps_char('_') {
            assert forall|i: int| 0 <= i < n.len() - 1 implies !(#[trigger] n[i] == '_' && n[i + 1] == '_') by {
                assert(n[i] == o[a + i] && n[i + 1] == o[a + i + 1]);
            }
        }
        assert(is_safe_name(n));
    }
}

proof fn lemma_scan_keeps_safe_text(n: Seq<char>)
    requires
        forall|i: int| 0 <= i < n.len() ==> keeps_char(#[trigger] n[i]) || n[i] == '_',
        n.len() > 0 ==> n[0] != '_',
        !keeps_char('_') ==> forall|i: int|
            0 <= i < n.len() - 1 ==> !(#[trigger] n[i] == '_' && n[i + 1] == '_'),
    ensures
        sanitise_scan(n).0 == n,
        sanitise_scan(n).1 == (n.len() > 0 && n.last() == '_' && !keeps_char('_')),
    decreases n.len(),
{
    if n.len() > 0 {
        let m = n.drop_last();
        assert forall|i: int| 0 <= i < m.len() implies keeps_char(#[trigger] m[i]) || m[i] == '_' by {
            assert(m[i] == n[i]);
        }
        if m.len() > 0 {
            assert(m[0] == n[0]);
        }
        if !keeps_char('_') {
            assert forall|i: int| 0 <= i < m.len() - 1 implies !(#[trigger] m[i] == '_' && m[i + 1] == '_') by {
                assert(m[i] == n[i] && m[i + 1] == n[i + 1]);
            }
        }
        lemma_scan_keeps_safe_text(m);
        let c = n.last();
        if !keeps_char(c) {
            assert(c == '_');
            if m.len() > 0 {
                assert(m.last() == n[n.len() - 2]);
                assert(!(n[n.len() - 2] == '_' && n[n.len() - 1] == '_'));
            }
        }
        assert(m.push(c) =~= n);
    }
}

proof fn lemma_safe_name_is_fixed(n: Seq<char>)
    requires
        is_safe_name(n),
    ensures
        sanitise_spec(n) == n,
{
    lemma_scan_keeps_safe_text(n);
    assert(truncate(n, 80) == n);
    assert(strip_start(n, TrimClass::Underscore) == n);
    assert(strip_end(n, TrimClass::Underscore) == n);
}

/// Sanitising a file name a second time changes nothing.
pub proof fn sanitising_is_idempotent(title: Seq<char>)
    ensures
        sanitise_spec(sanitise_spec(title)) == sanitise_spec(title),
{
    sanitised_name_is_safe(title);
    if sanitise_spec(title) == "download"@ {
        reveal_strlit("download");
        let d = "download"@;
        assert forall|i: int| 0 <= i < d.len() implies keeps_char(#[trigger] d[i]) || d[i] == '_' by {
            assert(d[i] == 'd' || d[i] == 'o' || d[i] == 'w' || d[i] == 'n' || d[i] == 'l' || d[i] == 'a');
        }
        assert(is_safe_name(d));
        lemma_safe_name_is_fixed(d);
    } else {
        lemma_safe_name_is_fixed(sanitise_spec(title));
    }
}

/// The phase `vdl update` reaches after the given events, from the start.
pub open spec fn update_phase_after(events: Seq<UpdateEvent>) -> UpdatePhase
    decreases events.len(),
{
    if events.len() == 0 {
        UpdatePhase::Start
    } else {
        update_step_spec(update_phase_after(events.drop_last()), events.last()).0
    }
}

/// The action `vdl update` asks for in answer to the event at `i`.
pub open spec fn update_action_at(events: Seq<UpdateEvent>, i: int) -> UpdateAction {
    update_step_spec(update_phase_after(events.take(i)), events[i]).1
}

proof fn lemma_phase_after_take(events: Seq<UpdateEvent>, i: int)
    requires
        0 <= i < events.len(),
    ensures
        update_phase_after(events.take(i + 1)) == update_step_spec(
            update_phase_after(events.take(i)),
            events[i],
        ).0,
{
    assert(events.take(i + 1).drop_last() =~= events.take(i));
}

proof fn lemma_update_history(es: Seq<UpdateEvent>)
    ensures
        ({
            let p = update_phase_after(es);
            p == UpdatePhase::CheckingFfmpeg || p == UpdatePhase::InstallingFfmpeg
                || p == UpdatePhase::Done
        }) ==> exists|j: int| 0 <= j < es.len() && #[trigger] es[j] == UpdateEvent::Updated(true),
        ({
            let p = update_phase_after(es);
            p == UpdatePhase::Building || p == UpdatePhase::Updating || p == UpdatePhase::CheckingFfmpeg
                || p == UpdatePhase::InstallingFfmpeg || p == UpdatePhase::Done
        }) ==> exists|j: int|
            0 <= j < es.len() && (#[trigger] es[j] == UpdateEvent::YtdlpPresent(true) || es[j]
                == UpdateEvent::YtdlpInstalled(true)),
    decreases es.len(),
{
    if es.len() > 0 {
        let d = es.drop_last();
        lemma_update_history(d);
        let n = es.len() - 1;
        assert forall|j: int| 0 <= j < d.len() implies #[trigger] d[j] == es[j] by {}
        if exists|j: int| 0 <= j < d.len() && #[trigger] d[j] == UpdateEvent::Updated(true) {
            let j = choose|j: int| 0 <= j < d.len() && #[trigger] d[j] == UpdateEvent::Updated(true);
            assert(es[j] == UpdateEvent::Updated(true));
        }
        if exists|j: int|
            0 <= j < d.len() && (#[trigger] d[j] == UpdateEvent::YtdlpPresent(true) || d[j]
                == UpdateEvent::YtdlpInstalled(true)) {
            let j = choose|j: int|
                0 <= j < d.len() && (#[trigger] d[j] == UpdateEvent::YtdlpPresent(true) || d[j]
                    == UpdateEvent::YtdlpInstalled(true));
            assert(es[j] == d[j]);
        }
        assert(es[n] == es.last());
    }
}

proof fn lemma_failed_stays(events: Seq<UpdateEvent>, j: int, k: int)
    requires
        0 <= j <= k <= events.len(),
        update_phase_after(events.take(j)) == UpdatePhase::Failed,
    ensures
        update_phase_after(events.take(k)) == UpdatePhase::Failed,
    decreases k - j,
{
    if j < k {
        lemma_failed_stays(events, j, k - 1);
        lemma_phase_after_take(events, k - 1);
    }
}

/// `vdl update` installs a missing yt-dlp before anything else, runs the
/// update only once yt-dlp is known to be there, installs ffmpeg only after a
/// successful update, and once a step has failed asks for nothing more.
pub proof fn update_runs_in_order(events: Seq<UpdateEvent>, i: int)
    requires
        0 <= i < events.len(),
    ensures
        events[0] == UpdateEvent::YtdlpPresent(false) ==> update_action_at(events, 0)
            == UpdateAction::InstallYtdlp,
        update_action_at(events, i) == UpdateAction::RunUpdate ==> exists|j: int|
            0 <= j < i && (#[trigger] events[j] == UpdateEvent::YtdlpPresent(true) || events[j]
                == UpdateEvent::YtdlpInstalled(true)),
        update_action_at(events, i) == UpdateAction::InstallFfmpeg ==> exists|j: int|
            0 <= j < i && #[trigger] events[j] == UpdateEvent::Updated(true),
        (exists|j: int| 0 <= j < i && #[trigger] update_action_at(events, j) is Fail)
            ==> update_action_at(events, i) == UpdateAction::Ignore,
{
    assert(events.take(0) =~= Seq::<UpdateEvent>::empty());
    let t = events.take(i);
    lemma_update_history(t);
    assert forall|j: int| 0 <= j < t.len() implies #[trigger] t[j] == events[j] by {}
    if exists|j: int| 0 <= j < t.len() && #[trigger] t[j] == UpdateEvent::Updated(true) {
        let j = choose|j: int| 0 <= j < t.len() && #[trigger] t[j] == UpdateEvent::Updated(true);
        assert(events[j] == t[j]);
    }
    if exists|j: int|
        0 <= j < t.len() && (#[trigger] t[j] == UpdateEvent::YtdlpPresent(true) || t[j]
            == UpdateEvent::YtdlpInstalled(true)) {
        let j = choose|j: int|
            0 <= j < t.len() && (#[trigger] t[j] == UpdateEvent::YtdlpPresent(true) || t[j]
                == UpdateEvent::YtdlpInstalled(true));
        assert(events[j] == t[j]);
    }
    if exists|j: int| 0 <= j < i && #[trigger] update_action_at(events, j) is Fail {
        let j = choose|j: int| 0 <= j < i && #[trigger] update_action_at(events, j) is Fail;
        lemma_phase_after_take(events, j);
        lemma_failed_stays(events, j + 1, i);
    }
}

/// The number of finished sessions of `s` whose ids are listed in `r`.
pub open spec fn count_listed_finished(s: Seq<SessionEntry>, r: Seq<u128>) -> nat
    decreases s.len(),
{
    if s.len() == 0 {
        0
    } else {
        count_listed_finished(s.drop_last(), r) + if s.last().status.is_finished_spec() && r.contains(s.last().id) {
            1nat
        } else {
            0nat
        }
    }
}

/// The number of finished sessions of `s` whose ids are not listed in `r`.
pub open spec fn count_kept_finished(s: Seq<SessionEntry>, r: Seq<u128>) -> nat
    decreases s.len(),
{
    if s.len() == 0 {
        0
    } else {
        count_kept_finished(s.drop_last(), r) + if s.last().status.is_finished_spec() && !r.contains(s.last().id) {
            1nat
        } else {
            0nat
        }
    }
}

proof fn lemma_counts_split(s: Seq<SessionEntry>, r: Seq<u128>)
    ensures
        count_finished(s) == count_listed_finished(s, r) + count_kept_finished(s, r),
    decreases s.len(),
{
    if s.len() > 0 {
        lemma_counts_split(s.drop_last(), r);
    }
}

proof fn lemma_listed_same(s: Seq<SessionEntry>, r1: Seq<u128>, r2: Seq<u128>)
    requires
        forall|i: int| 0 <= i < s.len() ==> (r1.contains(#[trigger] s[i].id) == r2.contains(s[i].id)),
    ensures
        count_listed_finished(s, r1) == count_listed_finished(s, r2),
    decreases s.len(),
{
    if s.len() > 0 {
        let t = s.drop_last();
        assert forall|i: int| 0 <= i < t.len() implies (r1.contains(#[trigger] t[i].id) == r2.contains(t[i].id)) by {
            assert(t[i] == s[i]);
        }
        lemma_listed_same(t, r1, r2);
        assert(s.last() == s[s.len() - 1]);
    }
}

proof fn lemma_listed_count(s: Seq<SessionEntry>, r: Seq<u128>)
    requires
        distinct_ids(s),
        r.no_duplicates(),
        forall|k: int| 0 <= k < r.len() ==> is_finished_id(s, #[trigger] r[k]),
    ensures
        count_listed_finished(s, r) == r.len(),
    decreases s.len(),
{
    if s.len() == 0 {
        if r.len() > 0 {
            assert(is_finished_id(s, r[0]));
        }
    } else {
        let t = s.drop_last();
        let x = s.last();
        let last = s.len() - 1;
        assert(x == s[last]);
        assert(distinct_ids(t)) by {
            assert forall|i: int, j: int| 0 <= i < t.len() && 0 <= j < t.len() && i != j implies #[trigger] t[i].id != #[trigger] t[j].id by {
                assert(t[i] == s[i] && t[j] == s[j]);
            }
        }
        if x.status.is_finished_spec() && r.contains(x.id) {
            let w = choose|w: int| 0 <= w < r.len() && r[w] == x.id;
            let r2 = r.remove(w);
            assert(r2.no_duplicates()) by {
                assert forall|a: int, b: int| 0 <= a < b < r2.len() implies r2[a] != r2[b] by {
                    let a1 = if a < w { a } else { a + 1 };
                    let b1 = if b < w { b } else { b + 1 };
                    assert(r2[a] == r[a1] && r2[b] == r[b1]);
                }
            }
            assert forall|k: int| 0 <= k < r2.len() implies is_finished_id(t, #[trigger] r2[k]) by {
                let k1 = if k < w { k } else { k + 1 };
                assert(r2[k] == r[k1]);
                assert(is_finished_id(s, r[k1]));
                let j = choose|j: int| 0 <= j < s.len() && #[trigger] s[j].id == r[k1] && s[j].status.is_finished_spec();
                assert(j != last);
                assert(t[j] == s[j]);
            }
            lemma_listed_count(t, r2);
            assert forall|i: int| 0 <= i < t.len() implies (r.contains(#[trigger] t[i].id) == r2.contains(t[i].id)) by {
                assert(t[i] == s[i]);
                assert(s[i].id != x.id);
                if r.contains(t[i].id) {
                    let v = choose|v: int| 0 <= v < r.len() && r[v] == t[i].id;
                    assert(v != w);
                    let v2 = if v < w { v } else { v - 1 };
                    assert(r2[v2] == r[v]);
                }
                if r2.contains(t[i].id) {
                    let v = choose|v: int| 0 <= v < r2.len() && r2[v] == t[i].id;
                    let v1 = if v < w { v } else { v + 1 };
                    assert(r2[v] == r[v1]);
                }
            }
            lemma_listed_same(t, r, r2);
        } else {
            assert forall|k: int| 0 <= k < r.len() implies is_finished_id(t, #[trigger] r[k]) by {
                assert(is_finished_id(s, r[k]));
                let j = choose|j: int| 0 <= j < s.len() && #[trigger] s[j].id == r[k] && s[j].status.is_finished_spec();
                if j == last {
                    assert(r.contains(x.id));
                }
                assert(t[j] == s[j]);
            }
            lemma_listed_count(t, r);
        }
    }
}

/// Eviction never touches an active session, and afterwards exactly as many
/// finished sessions remain as the cap allows (all of them when there are
/// fewer).
pub proof fn eviction_keeps_active_and_caps_finished(s: Seq<SessionEntry>, r: Seq<u128>)
    requires
        distinct_ids(s),
        is_eviction_plan(s, r),
    ensures
        forall|i: int| 0 <= i < s.len() && !s[i].status.is_finished_spec() ==> !r.contains(#[trigger] s[i].id),
        count_kept_finished(s, r) == if count_finished(s) > 50 { 50 } else { count_finished(s) },
{
    assert forall|i: int| 0 <= i < s.len() && !s[i].status.is_finished_spec() implies !r.contains(#[trigger] s[i].id) by {
        if r.contains(s[i].id) {
            let w = choose|w: int| 0 <= w < r.len() && r[w] == s[i].id;
            assert(is_finished_id(s, r[w]));
            let j = choose|j: int| 0 <= j < s.len() && #[trigger] s[j].id == r[w] && s[j].status.is_finished_spec();
            assert(j == i);
        }
    }
    lemma_listed_count(s, r);
    lemma_counts_split(s, r);
}

proof fn lemma_leading_word_shape(t: Seq<char>)
    ensures
        forall|i: int| 0 <= i < leading_word(t).len() ==> !is_white_space(#[trigger] leading_word(t)[i]),
        t.len() > 0 && !is_white_space(t[0]) ==> leading_word(t).len() > 0,
    decreases t.len(),
{
    if t.len() > 0 && !is_white_space(t[0]) {
        lemma_leading_word_shape(t.drop_first());
        let w = leading_word(t);
        let w2 = leading_word(t.drop_first());
        assert(w == seq![t[0]] + w2);
        assert forall|i: int| 0 <= i < w.len() implies !is_white_space(#[trigger] w[i]) by {
            if i > 0 {
                assert(w[i] == w2[i - 1]);
            }
        }
    }
}

/// The version read from an ffmpeg banner is a single non-empty word.
pub proof fn ffmpeg_version_is_one_word(line: Seq<char>)
    ensures
        ffmpeg_version_spec(line) matches Some(v) ==> v.len() > 0 && forall|i: int|
            0 <= i < v.len() ==> !is_white_space(#[trigger] v[i]),
{
    if "ffmpeg version "@.is_prefix_of(line) {
        let s = line.skip(15);
        let a = lemma_strip_start_shape(s, TrimClass::WhiteSpace);
        let t = strip_start(s, TrimClass::WhiteSpace);
        if t.len() > 0 {
            assert(t[0] == s[a]);
            lemma_leading_word_shape(t);
        }
    }
}

/// A config that `PUT /api/config` accepts never makes the downloader
/// refuse its cookie options, whatever the home directory.
pub proof fn accepted_config_has_no_cookie_conflict(
    cfg: Config,
    home: Option<Seq<char>>,
    r: Result<crate::downloader::CookieSource, crate::downloader::CookieConflict>,
)
    requires
        !(cfg.cookies_file is Some && cfg.cookies_from_browser is Some),
        crate::downloader::cookie_choice(cfg, home, r),
    ensures
        r is Ok,
{
}

/// Whether `c` may appear in a sanitised file name: `_`, `-`, an ASCII digit
/// or letter, or a character beyond ASCII that `char::is_alphanumeric`
/// accepts.
pub open spec fn is_file_name_char(c: char) -> bool {
    ||| c == '_'
    ||| c == '-'
    ||| 48 <= (c as u32) <= 57
    ||| 65 <= (c as u32) <= 90
    ||| 97 <= (c as u32) <= 122
    ||| (c as u32) >= 128 && char_is_alphanumeric(c)
}

/// A sanitised file name holds only `_`, `-` and alphanumeric characters:
/// dots, spaces, slashes and every other punctuation are gone.
pub proof fn sanitised_names_hold_only_name_characters(title: Seq<char>)
    ensures
        forall|i: int|
            0 <= i < sanitise_spec(title).len() ==> is_file_name_char(#[trigger] sanitise_spec(title)[i]),
{
    sanitised_name_is_safe(title);
    let n = sanitise_spec(title);
    if n == "download"@ {
        reveal_strlit("download");
        assert forall|i: int| 0 <= i < n.len() implies is_file_name_char(#[trigger] n[i]) by {
            assert(n[i] == 'd' || n[i] == 'o' || n[i] == 'w' || n[i] == 'n' || n[i] == 'l' || n[i] == 'a');
        }
    } else {
        assert forall|i: int| 0 <= i < n.len() implies is_file_name_char(#[trigger] n[i]) by {
            assert(keeps_char(n[i]) || n[i] == '_');
        }
    }
}

proof fn lemma_scan_by_chars(t: Seq<char>, a: Seq<bool>, k: int)
    requires
        0 <= k <= t.len(),
        a.len() == t.len(),
    ensures
        forall|i: int|
            0 <= i < sanitise_scan_by(t, a, k).0.len() ==> {
                let c = #[trigger] sanitise_scan_by(t, a, k).0[i];
                c == '_' || c == '-' || exists|j: int| 0 <= j < k && t[j] == c && #[trigger] a[j]
            },
    decreases k,
{
    if k > 0 {
        lemma_scan_by_chars(t, a, k - 1);
        let o = sanitise_scan_by(t, a, k - 1).0;
        let o2 = sanitise_scan_by(t, a, k).0;
        assert forall|i: int| 0 <= i < o2.len() implies {
            let c = #[trigger] o2[i];
            c == '_' || c == '-' || exists|j: int| 0 <= j < k && t[j] == c && #[trigger] a[j]
        } by {
            if i < o.len() {
                assert(o2[i] == o[i]);
                let c = o[i];
                if !(c == '_' || c == '-') {
                    let j = choose|j: int| 0 <= j < k - 1 && t[j] == c && #[trigger] a[j];
                    assert(0 <= j < k && t[j] == c && a[j]);
                }
            } else {
                assert(a[k - 1] ==> t[k - 1] == o2[i] || o2[i] == '_');
            }
        }
    }
}

/// A name sanitised with given answers of the character test is `download`
/// or holds only `_`, `-` and title characters that the test accepted.
pub proof fn sanitised_names_keep_only_accepted_characters(title: Seq<char>, answers: Seq<bool>)
    requires
        answers.len() == title.len(),
    ensures
        sanitise_by_spec(title, answers) == "download"@ || forall|i: int|
            0 <= i < sanitise_by_spec(title, answers).len() ==> {
                let c = #[trigger] sanitise_by_spec(title, answers)[i];
                c == '_' || c == '-' || exists|j: int|
                    0 <= j < title.len() && title[j] == c && #[trigger] answers[j]
            },
{
    let o = sanitise_scan_by(title, answers, title.len() as int).0;
    lemma_scan_by_chars(title, answers, title.len() as int);
    let raw = truncate(o, 80);
    assert(forall|i: int| 0 <= i < raw.len() ==> raw[i] == o[i]);
    let (lo, hi) = lemma_trim_class_shape(raw, TrimClass::Underscore);
    let n = sanitise_by_spec(title, answers);
    if n != "download"@ {
        assert forall|i: int| 0 <= i < n.len() implies {
            let c = #[trigger] n[i];
            c == '_' || c == '-' || exists|j: int|
                0 <= j < title.len() && title[j] == c && #[trigger] answers[j]
        } by {
            assert(n[i] == raw[lo + i]);
            assert(raw[lo + i] == o[lo + i]);
        }
    }
}

proof fn lemma_no_tilde_prefix(p: Seq<char>)
    requires
        p.len() > 0,
        p[0] != '~',
    ensures
        p != "~"@,
        !"~/"@.is_prefix_of(p),
        !"~\\"@.is_prefix_of(p),
{
    reveal_strlit("~");
    reveal_strlit("~/");
    reveal_strlit("~\\");
    assert("~"@ =~= seq!['~']);
    assert("~/"@ =~= seq!['~', '/']);
    assert("~\\"@ =~= seq!['~', '\\']);
    if p == "~"@ {
        assert(p[0] == '~');
    }
    if "~/"@.is_prefix_of(p) {
        assert(p[0] == "~/"@[0]);
    }
    if "~\\"@.is_prefix_of(p) {
        assert(p[0] == "~\\"@[0]);
    }
}

/// A resolved download goes where `--output` says: an absolute override is
/// the output directory itself, a relative one lies under the working
/// directory, and `~/...` lies under an absolute home directory. Without an
/// override, an absolute configured download path is used as it is.
pub proof fn output_flag_chooses_the_output_dir(
    platform: Platform,
    args: CommonArgs,
    cfg: Config,
    home: Option<Seq<char>>,
    cwd: Option<Seq<char>>,
    prompted: Option<Seq<char>>,
)
    ensures
        normalize_common_spec(platform, args, cfg, home, cwd, prompted) matches Ok(req) ==> match args.output {
            Some(out) => {
                let o = out@;
                &&& (o.len() > 0 && o[0] == '/') ==> req.output_dir == o
                &&& (o.len() > 0 && o[0] != '/' && o[0] != '~' && cwd is Some) ==> req.output_dir
                    == join_path(cwd->0, o)
                &&& ("~/"@.is_prefix_of(o) && home is Some && home->0.len() > 0 && home->0[0] == '/')
                    ==> req.output_dir == join_path(home->0, o.skip(2))
            },
            None => (cfg.download_path@.len() > 0 && cfg.download_path@[0] == '/') ==> req.output_dir
                == cfg.download_path@,
        },
{
    reveal_strlit("~");
    reveal_strlit("~/");
    reveal_strlit("~\\");
    if let Some(o) = args.output {
        if o@.len() > 0 && o@[0] != '~' {
            lemma_no_tilde_prefix(o@);
        }
        if "~/"@.is_prefix_of(o@) {
            assert(o@ != "~"@);
            assert(o@[0] == '~');
            if let Some(h) = home {
                if h.len() > 0 && h[0] == '/' {
                    let r = o@.skip(2);
                    if !(r.len() > 0 && r[0] == '/') {
                        if h.last() == '/' {
                            assert((h + r)[0] == h[0]);
                        } else {
                            assert((h + seq!['/'] + r)[0] == h[0]);
                        }
                    }
                }
            }
        }
    } else {
        let d = cfg.download_path@;
        if d.len() > 0 && d[0] == '/' {
            lemma_no_tilde_prefix(d);
        }
    }
}

/// A resolved Spotify request keeps the `--format` it was given, and is mp3
/// only when none was; an absolute `--output` is its output directory.
pub proof fn spotify_request_keeps_its_format(
    args: SpotifyArgs,
    cfg: Config,
    home: Option<Seq<char>>,
    cwd: Option<Seq<char>>,
    prompted: Option<Seq<char>>,
)
    ensures
        normalize_spotify_spec(args, cfg, home, cwd, prompted) matches Ok(req) ==> {
            &&& match args.format {
                Some(f) => req.format == f@,
                None => req.format == "mp3"@,
            }
            &&& match args.output {
                Some(o) => (o@.len() > 0 && o@[0] == '/') ==> req.output_dir == o@,
                None => true,
            }
        },
{
    reveal_strlit("~");
    reveal_strlit("~/");
    reveal_strlit("~\\");
    if let Some(o) = args.output {
        if o@.len() > 0 && o@[0] == '/' {
            lemma_no_tilde_prefix(o@);
        }
    }
}

/// `POST /api/download` accepts every platform but Spotify: a URL that holds
/// more than white space, with no clip fields, is accepted as given; Spotify
/// is refused with `422`; a blank or missing URL is always refused.
pub proof fn web_downloads_accept_every_platform_but_spotify(
    platform: Platform,
    url: Option<Seq<char>>,
    has_clip: bool,
)
    ensures
        match url {
            Some(u) => (trim_spec(u).len() > 0 && !has_clip) ==> {
                &&& platform != Platform::Spotify ==> download_request_spec(platform, url, has_clip)
                    == Ok::<Seq<char>, (u16, Seq<char>)>(u)
                &&& platform == Platform::Spotify ==> (download_request_spec(platform, url, has_clip) is Err
                    && download_request_spec(platform, url, has_clip)->Err_0.0 == 422)
                &&& session_request_spec(url, has_clip) == Ok::<Seq<char>, Seq<char>>(u)
            },
            None => true,
        },
        (url is None || trim_spec(url->0).len() == 0) ==> download_request_spec(platform, url, has_clip) is Err,
{
}


/// With a home directory known, a cookies file written `~/...` is handed to
/// the downloader under that home directory, and an absolute one as it is
/// (when no browser is configured).
pub proof fn cookie_file_is_expanded_against_home(
    cfg: Config,
    home: Seq<char>,
    r: Result<CookieSource, CookieConflict>,
)
    requires
        cookie_choice(cfg, Some(home), r),
        cfg.cookies_file is Some,
        normalized_text(opt_view(cfg.cookies_from_browser)) is None,
    ensures
        r matches Ok(CookieSource::File(p)) && ({
            let f = cfg.cookies_file->0@;
            &&& "~/"@.is_prefix_of(f) ==> p@ == join_path(home, f.skip(2))
            &&& (f.len() > 0 && f[0] == '/') ==> p@ == f
        }),
{
    reveal_strlit("~");
    reveal_strlit("~/");
    let f = cfg.cookies_file->0@;
    assert("~"@ =~= seq!['~']);
    assert("~/"@ =~= seq!['~', '/']);
    if "~/"@.is_prefix_of(f) {
        assert(f[0] == "~/"@[0]);
        assert(f != "~"@);
    }
    if f.len() > 0 && f[0] == '/' {
        lemma_no_tilde_prefix(f);
    }
}

} // verus!
