//! How the configured cookie options are handed to the downloader: a
//! cookies file or a browser to import cookies from, never both.

use vstd::prelude::*;
use vstd::string::StrSliceExecFns;
use crate::commands::normalized_text;
use crate::config::{expand_tilde_opt, opt_view, Config};
use crate::text::{push_str, string_from_chars, trim};

verus! {

broadcast use vstd::string::group_string_axioms;

/// The view of an optional string slice.
pub open spec fn opt_str_view(o: Option<&str>) -> Option<Seq<char>> {
    match o {
        Some(s) => Some(s@),
        None => None,
    }
}

/// A browser name, trimmed; a blank one counts as none.
pub fn normalized_browser_name(value: Option<&str>) -> (r: Option<String>)
    ensures
        opt_view(r) == normalized_text(opt_str_view(value)),
{
    match value {
        Some(v) => {
            let t = trim(v);
            if t.unicode_len() == 0 {
                None
            } else {
                Some(t.to_owned())
            }
        },
        None => None,
    }
}

/// Where the downloader takes cookies from.
#[derive(Clone, Debug)]
pub enum CookieSource {
    NoCookies,
    File(String),
    Browser(String),
}

/// Both a cookies file and a browser were configured.
#[derive(Clone, Debug)]
pub struct CookieConflict {
    /// The cookies file, with `~` expanded.
    pub file: String,
    /// The browser name, trimmed.
    pub browser: String,
}

impl CookieConflict {
    pub open spec fn message_spec(file: Seq<char>, browser: Seq<char>) -> Seq<char> {
        "Config options cookies_file ("@ + file + ") and cookies_from_browser ("@ + browser
            + ") are mutually exclusive"@
    }

    /// The error shown to the user.
    pub fn message(&self) -> (r: String)
        ensures
            r@ == Self::message_spec(self.file@, self.browser@),
    {
        let mut out: Vec<char> = Vec::new();
        push_str(&mut out, "Config options cookies_file (");
        push_str(&mut out, self.file.as_str());
        push_str(&mut out, ") and cookies_from_browser (");
        push_str(&mut out, self.browser.as_str());
        push_str(&mut out, ") are mutually exclusive");
        string_from_chars(&out)
    }
}

/// Whether `r` is the cookie choice of `cfg` with the home directory
/// `home`: the expanded cookies file or the trimmed browser name, whichever
/// is set, nothing when neither is, and a conflict when both are.
pub open spec fn cookie_choice(cfg: Config, home: Option<Seq<char>>, r: Result<CookieSource, CookieConflict>) -> bool {
    let file = match cfg.cookies_file {
        Some(f) => Some(expand_tilde_opt(f@, home)),
        None => None,
    };
    let browser = normalized_text(opt_view(cfg.cookies_from_browser));
    match r {
        Err(c) => file == Some(c.file@) && browser == Some(c.browser@),
        Ok(CookieSource::File(f)) => file == Some(f@) && browser is None,
        Ok(CookieSource::Browser(b)) => file is None && browser == Some(b@),
        Ok(CookieSource::NoCookies) => file is None && browser is None,
    }
}

/// The cookie source a config selects, against the given home directory.
pub fn cookie_source_with(cfg: &Config, home: &Option<String>) -> (r: Result<CookieSource, CookieConflict>)
    ensures
        cookie_choice(*cfg, opt_view(*home), r),
{
    let file = cfg.cookies_file_expanded_with(home);
    let browser = match &cfg.cookies_from_browser {
        Some(b) => normalized_browser_name(Some(b.as_str())),
        None => normalized_browser_name(None),
    };
    match (file, browser) {
        (Some(f), Some(b)) => Err(CookieConflict { file: f, browser: b }),
        (Some(f), None) => Ok(CookieSource::File(f)),
        (None, Some(b)) => Ok(CookieSource::Browser(b)),
        (None, None) => Ok(CookieSource::NoCookies),
    }
}

/// The cookie source a config selects, with `~` expanded against the
/// user's home directory.
pub fn cookie_source(cfg: &Config) -> (r: Result<CookieSource, CookieConflict>)
    ensures
        exists|home: Option<Seq<char>>| #[trigger] cookie_choice(*cfg, home, r),
{
    let home = crate::config::home_dir();
    cookie_source_with(cfg, &home)
}

} // verus!
