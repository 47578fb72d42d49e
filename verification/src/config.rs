//! The user's configuration and the paths derived from it: tilde expansion,
//! the config directory under the home directory, and the expanded download,
//! sandbox and cookie paths.

use vstd::prelude::*;
use crate::text::{chars_eq, chars_of, has_prefix_at, push_chars, push_str, slice_chars, string_from_chars};

verus! {

broadcast use vstd::string::group_string_axioms;

/// Per-platform default video quality.
#[derive(Clone, Debug, PartialEq, Eq)]
pub struct PlatformQuality {
    pub youtube: String,
    pub tiktok: String,
    pub instagram: String,
    pub twitter: String,
    pub spotify: String,
}

/// Settings read from `~/.config/vdl/config.yaml`.
#[derive(Clone, Debug, PartialEq, Eq)]
pub struct Config {
    pub download_path: String,
    pub default_format: String,
    pub default_video_quality: String,
    pub platform_quality: PlatformQuality,
    pub bins_dir: String,
    pub cookies_file: Option<String>,
    pub cookies_from_browser: Option<String>,
    pub confirm_before_download: bool,
    pub search_results_count: usize,
    pub termux_mode: bool,
    pub no_progress: bool,
}

/// Why a configuration path could not be resolved.
#[derive(Clone, Copy, Debug, PartialEq, Eq)]
pub enum ConfigError {
    HomeDirUnavailable,
}

impl ConfigError {
    pub open spec fn message_spec(self) -> Seq<char> {
        match self {
            ConfigError::HomeDirUnavailable => "Failed to resolve home directory"@,
        }
    }

    /// The message shown to the user.
    pub fn message(&self) -> (r: String)
        ensures
            r@ == self.message_spec(),
    {
        match self {
            ConfigError::HomeDirUnavailable => "Failed to resolve home directory".to_owned(),
        }
    }
}

/// `base` joined with `rest` the way `PathBuf::push` joins on Unix: an
/// absolute `rest` replaces `base`, otherwise a `/` separates the two unless
/// `base` is empty or already ends in one.
pub open spec fn join_path(base: Seq<char>, rest: Seq<char>) -> Seq<char> {
    if rest.len() > 0 && rest[0] == '/' {
        rest
    } else if base.len() == 0 || base.last() == '/' {
        base + rest
    } else {
        base + seq!['/'] + rest
    }
}

/// Tilde expansion against a known home directory: `~` is the home
/// directory, `~/rest` is `rest` under it, anything else is unchanged.
pub open spec fn expand_tilde_spec(path: Seq<char>, home: Seq<char>) -> Seq<char> {
    if path == "~"@ {
        home
    } else if "~/"@.is_prefix_of(path) {
        join_path(home, path.skip(2))
    } else {
        path
    }
}

/// Tilde expansion when the home directory may be unknown: without one the
/// path is kept as it is.
pub open spec fn expand_tilde_opt(path: Seq<char>, home: Option<Seq<char>>) -> Seq<char> {
    match home {
        Some(h) => expand_tilde_spec(path, h),
        None => path,
    }
}

/// The directory that holds the config file, relative to the home directory.
pub open spec fn config_dir_spec(home: Seq<char>) -> Seq<char> {
    join_path(home, ".config/vdl"@)
}

/// The config file inside the config directory.
pub open spec fn config_path_spec(home: Seq<char>) -> Seq<char> {
    join_path(config_dir_spec(home), "config.yaml"@)
}

/// The views of an optional string.
pub open spec fn opt_view(o: Option<String>) -> Option<Seq<char>> {
    match o {
        Some(s) => Some(s@),
        None => None,
    }
}

/// `dirs::home_dir`, with the path rendered as text (bytes that are not
/// UTF-8 become replacement characters). The contract claims only that a
/// home directory, when one is found, is not empty: the crate takes `HOME`
/// when it is set and not empty, else the password database's entry when
/// that is not empty. Which directory it is depends on the environment and
/// is left unsaid.
#[verifier::external_body]
pub(crate) fn home_dir() -> (r: Option<String>)
    ensures
        r matches Some(h) ==> h@.len() > 0,
{
    match dirs::home_dir() {
        Some(path) => Some(path.to_string_lossy().into_owned()),
        None => None,
    }
}

/// Joins `rest` onto `base` (see `join_path`).
pub fn join_chars(base: &Vec<char>, rest: &Vec<char>) -> (r: Vec<char>)
    ensures
        r@ == join_path(base@, rest@),
{
    if rest.len() > 0 && rest[0] == '/' {
        return slice_chars(rest, 0, rest.len());
    }
    let mut out = slice_chars(base, 0, base.len());
    assert(out@ =~= base@);
    if !(base.len() == 0 || base[base.len() - 1] == '/') {
        out.push('/');
    }
    push_chars(&mut out, rest);
    out
}

/// Expands a leading `~` in `path` against the given home directory.
pub fn expand_tilde_with_home(path: &str, home: &str) -> (r: String)
    ensures
        r@ == expand_tilde_spec(path@, home@),
{
    let p = chars_of(path);
    if chars_eq(&p, "~") {
        return home.to_owned();
    }
    let tilde_slash = chars_of("~/");
    proof {
        reveal_strlit("~/");
    }
    if has_prefix_at(&p, 0, &tilde_slash) {
        assert(tilde_slash@.is_prefix_of(p@)) by {
            assert(p@.subrange(0, 2) =~= p@.take(2));
        }
        let rest = slice_chars(&p, 2, p.len());
        let h = chars_of(home);
        assert(rest@ =~= p@.skip(2));
        let joined = join_chars(&h, &rest);
        return string_from_chars(&joined);
    }
    proof {
        if "~/"@.is_prefix_of(p@) {
            assert(p@.subrange(0, 2) =~= "~/"@);
        }
    }
    path.to_owned()
}

/// Expands a leading `~` in `path` against the optional home directory.
pub fn expand_tilde_opt_home(path: &str, home: &Option<String>) -> (r: String)
    ensures
        r@ == expand_tilde_opt(path@, opt_view(*home)),
{
    match home {
        Some(h) => expand_tilde_with_home(path, h.as_str()),
        None => path.to_owned(),
    }
}

/// Expands a leading `~` in `path` against the user's home directory, and
/// keeps the path unchanged when the home directory cannot be found.
pub fn expand_tilde(path: &str) -> (r: String)
    ensures
        exists|home: Option<Seq<char>>| r@ == expand_tilde_opt(path@, home),
{
    let home = home_dir();
    expand_tilde_opt_home(path, &home)
}

/// The config directory under the given home directory.
pub fn config_dir_from_home(home: &str) -> (r: String)
    ensures
        r@ == config_dir_spec(home@),
{
    let h = chars_of(home);
    let rel = chars_of(".config/vdl");
    string_from_chars(&join_chars(&h, &rel))
}

/// The config file under the given home directory.
pub fn config_path_from_home(home: &str) -> (r: String)
    ensures
        r@ == config_path_spec(home@),
{
    let dir = chars_of(home);
    let rel = chars_of(".config/vdl");
    let d = join_chars(&dir, &rel);
    let file = chars_of("config.yaml");
    string_from_chars(&join_chars(&d, &file))
}

/// The config directory, `~/.config/vdl`; fails when the home directory
/// cannot be found.
pub fn config_dir() -> (r: Result<String, ConfigError>)
    ensures
        r matches Ok(p) ==> exists|home: Seq<char>| home.len() > 0 && p@ == config_dir_spec(home),
        r matches Err(e) ==> e == ConfigError::HomeDirUnavailable,
{
    match home_dir() {
        Some(h) => Ok(config_dir_from_home(h.as_str())),
        None => Err(ConfigError::HomeDirUnavailable),
    }
}

/// The config file, `~/.config/vdl/config.yaml`; fails when the home
/// directory cannot be found.
pub fn config_path() -> (r: Result<String, ConfigError>)
    ensures
        r matches Ok(p) ==> exists|home: Seq<char>| home.len() > 0 && p@ == config_path_spec(home),
        r matches Err(e) ==> e == ConfigError::HomeDirUnavailable,
{
    match home_dir() {
        Some(h) => Ok(config_path_from_home(h.as_str())),
        None => Err(ConfigError::HomeDirUnavailable),
    }
}

impl Config {
    /// `download_path` with a leading `~` expanded against the given home.
    pub fn download_path_expanded_with(&self, home: &Option<String>) -> (r: String)
        ensures
            r@ == expand_tilde_opt(self.download_path@, opt_view(*home)),
    {
        expand_tilde_opt_home(self.download_path.as_str(), home)
    }

    /// `download_path` with a leading `~` expanded.
    pub fn download_path_expanded(&self) -> (r: String)
        ensures
            exists|home: Option<Seq<char>>| r@ == expand_tilde_opt(self.download_path@, home),
    {
        expand_tilde(self.download_path.as_str())
    }

    /// `bins_dir` with a leading `~` expanded against the given home.
    pub fn bins_dir_expanded_with(&self, home: &Option<String>) -> (r: String)
        ensures
            r@ == expand_tilde_opt(self.bins_dir@, opt_view(*home)),
    {
        expand_tilde_opt_home(self.bins_dir.as_str(), home)
    }

    /// `bins_dir` with a leading `~` expanded.
    pub fn bins_dir_expanded(&self) -> (r: String)
        ensures
            exists|home: Option<Seq<char>>| r@ == expand_tilde_opt(self.bins_dir@, home),
    {
        expand_tilde(self.bins_dir.as_str())
    }

    /// `cookies_file`, when set, with a leading `~` expanded against the given home.
    pub fn cookies_file_expanded_with(&self, home: &Option<String>) -> (r: Option<String>)
        ensures
            r is Some <==> self.cookies_file is Some,
            r matches Some(p) ==> p@ == expand_tilde_opt(
                self.cookies_file->0@,
                opt_view(*home),
            ),
    {
        match &self.cookies_file {
            Some(f) => Some(expand_tilde_opt_home(f.as_str(), home)),
            None => None,
        }
    }

    /// `cookies_file`, when set, with a leading `~` expanded.
    pub fn cookies_file_expanded(&self) -> (r: Option<String>)
        ensures
            r is Some <==> self.cookies_file is Some,
            r matches Some(p) ==> exists|home: Option<Seq<char>>|
                p@ == expand_tilde_opt(self.cookies_file->0@, home),
    {
        let home = home_dir();
        self.cookies_file_expanded_with(&home)
    }
}

/// Whether a segment between separators names a path component: empty
/// segments (from repeated or trailing separators) and `.` do not.
pub open spec fn is_component(seg: Seq<char>) -> bool {
    seg.len() > 0 && seg != "."@
}

/// The components of `p` after its root or leading `.`, as start and end
/// positions, scanning from position `i` with the current segment begun at `s`.
pub open spec fn body_components(p: Seq<char>, s: int, i: int) -> Seq<(int, int)>
    decreases p.len() - i,
{
    if i >= p.len() {
        if is_component(p.subrange(s, p.len() as int)) {
            seq![(s, p.len() as int)]
        } else {
            Seq::empty()
        }
    } else if p[i] == '/' {
        if is_component(p.subrange(s, i)) {
            seq![(s, i)] + body_components(p, i + 1, i + 1)
        } else {
            body_components(p, i + 1, i + 1)
        }
    } else {
        body_components(p, s, i + 1)
    }
}

/// Whether a relative path starts with a `.` component (`.` or `./...`).
pub open spec fn has_leading_cur_dir(p: Seq<char>) -> bool {
    p.len() > 0 && p[0] == '.' && (p.len() == 1 || p[1] == '/')
}

/// The components of a Unix path, the way `Path::components` reads them, as
/// start and end positions: the root `/` or a leading `.` first, then every
/// segment between separators except empty ones and `.`.
pub open spec fn path_components(p: Seq<char>) -> Seq<(int, int)> {
    if p.len() > 0 && (p[0] == '/' || has_leading_cur_dir(p)) {
        seq![(0int, 1int)] + body_components(p, 1, 1)
    } else {
        body_components(p, 0, 0)
    }
}

/// The text of a component.
pub open spec fn component_text(p: Seq<char>, c: (int, int)) -> Seq<char> {
    p.subrange(c.0, c.1)
}

/// `path` with the components of `home` removed from its front, the way
/// `Path::strip_prefix` does: `None` when `home`'s components do not begin
/// `path`'s; else the text from the first remaining component to the end of
/// the last (separators and `.` at both ends dropped), which is empty when
/// nothing remains.
pub open spec fn strip_home(path: Seq<char>, home: Seq<char>) -> Option<Seq<char>> {
    let pc = path_components(path);
    let hc = path_components(home);
    if hc.len() <= pc.len() && forall|k: int|
        0 <= k < hc.len() ==> #[trigger] component_text(path, pc[k]) == component_text(home, hc[k]) {
        Some(
            if hc.len() == 0 {
                path.take(if pc.len() == 0 { 0 } else { pc.last().1 })
            } else if pc.len() > hc.len() {
                path.subrange(pc[hc.len() as int].0, pc.last().1)
            } else {
                Seq::empty()
            },
        )
    } else {
        None
    }
}

/// How a path is shown to the user: when it lies under the home directory
/// (compared by components), as `~` for the home directory itself and `~/`
/// and the rest otherwise; any other path unchanged.
pub open spec fn display_path_spec(path: Seq<char>, home: Option<Seq<char>>) -> Seq<char> {
    match home {
        None => path,
        Some(h) => match strip_home(path, h) {
            Some(rest) => if rest.len() == 0 {
                "~"@
            } else {
                "~/"@ + rest
            },
            None => path,
        },
    }
}

proof fn lemma_body_bounds(p: Seq<char>, s: int, i: int)
    requires
        0 <= s <= i <= p.len(),
    ensures
        forall|k: int|
            0 <= k < body_components(p, s, i).len() ==> s <= (#[trigger] body_components(p, s, i)[k]).0
                < body_components(p, s, i)[k].1 <= p.len(),
    decreases p.len() - i,
{
    let b = body_components(p, s, i);
    if i < p.len() {
        if p[i] == '/' {
            lemma_body_bounds(p, i + 1, i + 1);
            let rest = body_components(p, i + 1, i + 1);
            if is_component(p.subrange(s, i)) {
                assert(b == seq![(s, i)] + rest);
                assert forall|k: int| 0 <= k < b.len() implies s <= (#[trigger] b[k]).0 < b[k].1 <= p.len() by {
                    if k > 0 {
                        assert(b[k] == rest[k - 1]);
                    }
                }
            } else {
                assert(b == rest);
            }
        } else {
            lemma_body_bounds(p, s, i + 1);
            assert(b == body_components(p, s, i + 1));
        }
    } else {
        if is_component(p.subrange(s, p.len() as int)) {
            assert(b == seq![(s, p.len() as int)]);
            assert(p.subrange(s, p.len() as int).len() > 0);
            assert(b[0] == (s, p.len() as int));
        } else {
            assert(b.len() == 0);
        }
    }
}

/// Every component of a path lies inside it and is not empty.
pub proof fn lemma_components_bounds(p: Seq<char>)
    ensures
        forall|k: int|
            0 <= k < path_components(p).len() ==> 0 <= (#[trigger] path_components(p)[k]).0
                < path_components(p)[k].1 <= p.len(),
{
    if p.len() > 0 && (p[0] == '/' || has_leading_cur_dir(p)) {
        lemma_body_bounds(p, 1, 1);
        let b = body_components(p, 1, 1);
        assert forall|k: int| 0 <= k < path_components(p).len() implies 0 <= (#[trigger] path_components(p)[k]).0
            < path_components(p)[k].1 <= p.len() by {
            if k > 0 {
                assert(path_components(p)[k] == b[k - 1]);
            }
        }
    } else {
        lemma_body_bounds(p, 0, 0);
    }
}

proof fn lemma_body_ordered(p: Seq<char>, s: int, i: int)
    requires
        0 <= s <= i <= p.len(),
    ensures
        forall|k1: int, k2: int|
            0 <= k1 < k2 < body_components(p, s, i).len() ==> (#[trigger] body_components(p, s, i)[k1]).1
                <= (#[trigger] body_components(p, s, i)[k2]).0,
    decreases p.len() - i,
{
    let b = body_components(p, s, i);
    if i < p.len() {
        if p[i] == '/' {
            lemma_body_ordered(p, i + 1, i + 1);
            lemma_body_bounds(p, i + 1, i + 1);
            let rest = body_components(p, i + 1, i + 1);
            if is_component(p.subrange(s, i)) {
                assert(b == seq![(s, i)] + rest);
                assert forall|k1: int, k2: int| 0 <= k1 < k2 < b.len() implies (#[trigger] b[k1]).1 <= (#[trigger] b[k2]).0 by {
                    assert(b[k2] == rest[k2 - 1]);
                    if k1 > 0 {
                        assert(b[k1] == rest[k1 - 1]);
                    }
                }
            } else {
                assert(b == rest);
            }
        } else {
            lemma_body_ordered(p, s, i + 1);
            assert(b == body_components(p, s, i + 1));
        }
    } else {
        assert(b.len() <= 1);
    }
}

proof fn lemma_components_ordered(p: Seq<char>)
    ensures
        forall|k1: int, k2: int|
            0 <= k1 < k2 < path_components(p).len() ==> (#[trigger] path_components(p)[k1]).1
                <= (#[trigger] path_components(p)[k2]).0,
{
    if p.len() > 0 && (p[0] == '/' || has_leading_cur_dir(p)) {
        lemma_body_ordered(p, 1, 1);
        lemma_body_bounds(p, 1, 1);
        let b = body_components(p, 1, 1);
        let c = path_components(p);
        assert forall|k1: int, k2: int| 0 <= k1 < k2 < c.len() implies (#[trigger] c[k1]).1 <= (#[trigger] c[k2]).0 by {
            assert(c[k2] == b[k2 - 1]);
            if k1 > 0 {
                assert(c[k1] == b[k1 - 1]);
            }
        }
    } else {
        lemma_body_ordered(p, 0, 0);
    }
}

/// The views of a list of positions.
pub open spec fn positions_view(v: Seq<(usize, usize)>) -> Seq<(int, int)> {
    v.map_values(|x: (usize, usize)| (x.0 as int, x.1 as int))
}

fn segment_is_component(v: &Vec<char>, s: usize, i: usize) -> (r: bool)
    requires
        s <= i <= v@.len(),
    ensures
        r == is_component(v@.subrange(s as int, i as int)),
{
    proof {
        reveal_strlit(".");
        assert("."@ =~= seq!['.']);
        if i == s + 1 && v@[s as int] == '.' {
            assert(v@.subrange(s as int, i as int) =~= "."@);
        }
        if v@.subrange(s as int, i as int) == "."@ {
            assert(v@.subrange(s as int, i as int)[0] == '.');
        }
    }
    i > s && !(i == s + 1 && v[s] == '.')
}

/// The components of a path (see `path_components`).
fn components_of(v: &Vec<char>) -> (r: Vec<(usize, usize)>)
    ensures
        positions_view(r@) == path_components(v@),
{
    let n = v.len();
    let mut out: Vec<(usize, usize)> = Vec::new();
    let mut s: usize = 0;
    let mut i: usize = 0;
    if n > 0 && (v[0] == '/' || (v[0] == '.' && (n == 1 || v[1] == '/'))) {
        out.push((0, 1));
        s = 1;
        i = 1;
    }
    assert(positions_view(out@) + body_components(v@, s as int, i as int) =~= path_components(v@));
    while i < n
        invariant
            n == v@.len(),
            s <= i <= n,
            positions_view(out@) + body_components(v@, s as int, i as int) == path_components(v@),
        decreases n - i,
    {
        if v[i] == '/' {
            let ghost before = positions_view(out@);
            if segment_is_component(v, s, i) {
                out.push((s, i));
                assert(positions_view(out@) =~= before + seq![(s as int, i as int)]);
            }
            assert(positions_view(out@) + body_components(v@, i + 1, i + 1) =~= before
                + body_components(v@, s as int, i as int));
            i = i + 1;
            s = i;
        } else {
            i = i + 1;
        }
    }
    let ghost before = positions_view(out@);
    if segment_is_component(v, s, n) {
        out.push((s, n));
        assert(positions_view(out@) =~= before + seq![(s as int, n as int)]);
    }
    assert(positions_view(out@) =~= before + body_components(v@, s as int, n as int));
    out
}

fn same_text(a: &Vec<char>, x: (usize, usize), b: &Vec<char>, y: (usize, usize)) -> (r: bool)
    requires
        x.0 <= x.1 <= a@.len(),
        y.0 <= y.1 <= b@.len(),
    ensures
        r == (a@.subrange(x.0 as int, x.1 as int) == b@.subrange(y.0 as int, y.1 as int)),
{
    if x.1 - x.0 != y.1 - y.0 {
        proof {
            assert(a@.subrange(x.0 as int, x.1 as int).len() != b@.subrange(y.0 as int, y.1 as int).len());
        }
        return false;
    }
    let len = x.1 - x.0;
    let ghost sa = a@.subrange(x.0 as int, x.1 as int);
    let ghost sb = b@.subrange(y.0 as int, y.1 as int);
    let mut k: usize = 0;
    while k < len
        invariant
            len == x.1 - x.0 == y.1 - y.0,
            x.0 <= x.1 <= a@.len(),
            y.0 <= y.1 <= b@.len(),
            sa == a@.subrange(x.0 as int, x.1 as int),
            sb == b@.subrange(y.0 as int, y.1 as int),
            k <= len,
            forall|m: int| 0 <= m < k ==> #[trigger] sa[m] == sb[m],
        decreases len - k,
    {
        assert(sa[k as int] == a@[x.0 + k] && sb[k as int] == b@[y.0 + k]);
        if a[x.0 + k] != b[y.0 + k] {
            return false;
        }
        k = k + 1;
    }
    assert(sa =~= sb);
    true
}

/// `path` with the home directory's components removed (see `strip_home`).
fn strip_home_of(path: &Vec<char>, home: &Vec<char>) -> (r: Option<Vec<char>>)
    ensures
        match (r, strip_home(path@, home@)) {
            (Some(a), Some(b)) => a@ == b,
            (None, None) => true,
            _ => false,
        },
{
    let pc = components_of(path);
    let hc = components_of(home);
    proof {
        lemma_components_bounds(path@);
        lemma_components_bounds(home@);
    }
    let ghost pcs = path_components(path@);
    let ghost hcs = path_components(home@);
    assert(pcs.len() == pc@.len() && hcs.len() == hc@.len());
    if hc.len() > pc.len() {
        return None;
    }
    let mut k: usize = 0;
    while k < hc.len()
        invariant
            pcs == positions_view(pc@),
            hcs == positions_view(hc@),
            pcs == path_components(path@),
            hcs == path_components(home@),
            hc@.len() <= pc@.len(),
            k <= hc@.len(),
            forall|m: int| 0 <= m < pcs.len() ==> 0 <= (#[trigger] pcs[m]).0 < pcs[m].1 <= path@.len(),
            forall|m: int| 0 <= m < hcs.len() ==> 0 <= (#[trigger] hcs[m]).0 < hcs[m].1 <= home@.len(),
            forall|m: int| 0 <= m < k ==> #[trigger] component_text(path@, pcs[m]) == component_text(home@, hcs[m]),
        decreases hc@.len() - k,
    {
        assert(pcs[k as int] == (pc@[k as int].0 as int, pc@[k as int].1 as int));
        assert(hcs[k as int] == (hc@[k as int].0 as int, hc@[k as int].1 as int));
        if !same_text(path, pc[k], home, hc[k]) {
            assert(component_text(path@, pcs[k as int]) != component_text(home@, hcs[k as int]));
            return None;
        }
        k = k + 1;
    }
    if hc.len() == 0 {
        let end: usize = if pc.len() == 0 { 0 } else { pc[pc.len() - 1].1 };
        proof {
            if pc@.len() > 0 {
                assert(pcs.last() == (pc@.last().0 as int, pc@.last().1 as int));
            }
        }
        let r = slice_chars(path, 0, end);
        assert(r@ =~= path@.take(end as int));
        Some(r)
    } else if pc.len() > hc.len() {
        let a = pc[hc.len()].0;
        let b = pc[pc.len() - 1].1;
        proof {
            assert(pcs[hc@.len() as int] == (a as int, pc@[hc@.len() as int].1 as int));
            assert(pcs.last() == (pc@.last().0 as int, b as int));
            assert(pcs[hc@.len() as int].1 <= pcs.last().1) by {
                lemma_components_ordered(path@);
            }
        }
        Some(slice_chars(path, a, b))
    } else {
        Some(Vec::new())
    }
}

/// Shows `path` relative to the given home directory.
pub fn display_path_with(path: &str, home: &Option<String>) -> (r: String)
    ensures
        r@ == display_path_spec(path@, opt_view(*home)),
{
    match home {
        None => path.to_owned(),
        Some(h) => {
            let p = chars_of(path);
            let hv = chars_of(h.as_str());
            match strip_home_of(&p, &hv) {
                Some(rest) => if rest.len() == 0 {
                    "~".to_owned()
                } else {
                    let mut out = chars_of("~/");
                    push_chars(&mut out, &rest);
                    string_from_chars(&out)
                },
                None => path.to_owned(),
            }
        },
    }
}

/// Shows `path` relative to the user's home directory.
pub fn display_path(path: &str) -> (r: String)
    ensures
        exists|home: Option<Seq<char>>| r@ == display_path_spec(path@, home),
{
    let home = home_dir();
    display_path_with(path, &home)
}

impl Config {
    /// The config as it applies in this session: Termux mode is switched on
    /// when Termux was detected, and progress animations are switched off
    /// whenever Termux mode is on.
    pub fn for_session(self, termux_detected: bool) -> (r: Config)
        ensures
            r.termux_mode == (self.termux_mode || termux_detected),
            r.no_progress == (self.no_progress || r.termux_mode),
            r.download_path == self.download_path,
            r.default_format == self.default_format,
            r.default_video_quality == self.default_video_quality,
            r.platform_quality == self.platform_quality,
            r.bins_dir == self.bins_dir,
            r.cookies_file == self.cookies_file,
            r.cookies_from_browser == self.cookies_from_browser,
            r.confirm_before_download == self.confirm_before_download,
            r.search_results_count == self.search_results_count,
    {
        let termux_mode = self.termux_mode || termux_detected;
        let no_progress = self.no_progress || termux_mode;
        Config { termux_mode, no_progress, ..self }
    }
}

} // verus!
