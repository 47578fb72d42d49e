//! The decisions of the local download server: session lifecycle states,
//! which finished sessions are evicted, how requests are validated and
//! answered, and which events a WebSocket client is sent.

use vstd::prelude::*;
use vstd::string::StrSliceExecFns;
use std::collections::HashSet;
use crate::commands::Platform;
use crate::config::Config;
use crate::text::{chars_of, push_decimal2, push_str, str_is, string_from_chars, trim, trim_spec};

verus! {

broadcast use {vstd::string::group_string_axioms, vstd::std_specs::hash::group_hash_axioms};

/// The lifecycle of a server-driven download.
#[derive(Clone, Copy, Debug, PartialEq, Eq, Structural)]
pub enum SessionStatus {
    Pending,
    FetchingMetadata,
    Downloading,
    Merging,
    Complete,
    Error,
    Cancelled,
}

impl SessionStatus {
    pub open spec fn as_str_spec(self) -> Seq<char> {
        match self {
            SessionStatus::Pending => "pending"@,
            SessionStatus::FetchingMetadata => "fetching_metadata"@,
            SessionStatus::Downloading => "downloading"@,
            SessionStatus::Merging => "merging"@,
            SessionStatus::Complete => "complete"@,
            SessionStatus::Error => "error"@,
            SessionStatus::Cancelled => "cancelled"@,
        }
    }

    /// The lowercase name used in `GET /api/downloads` and WebSocket `status` events.
    pub fn as_str(&self) -> (r: &'static str)
        ensures
            r@ == self.as_str_spec(),
    {
        match self {
            SessionStatus::Pending => "pending",
            SessionStatus::FetchingMetadata => "fetching_metadata",
            SessionStatus::Downloading => "downloading",
            SessionStatus::Merging => "merging",
            SessionStatus::Complete => "complete",
            SessionStatus::Error => "error",
            SessionStatus::Cancelled => "cancelled",
        }
    }

    pub open spec fn is_finished_spec(self) -> bool {
        self == SessionStatus::Complete || self == SessionStatus::Error || self
            == SessionStatus::Cancelled
    }

    /// Whether the session has reached a terminal state.
    pub fn is_finished(&self) -> (r: bool)
        ensures
            r == self.is_finished_spec(),
    {
        match self {
            SessionStatus::Complete | SessionStatus::Error | SessionStatus::Cancelled => true,
            _ => false,
        }
    }
}

/// A download's remaining time as `MM:SS` (minutes not capped), or `--:--`.
pub open spec fn format_eta_spec(seconds: Option<nat>) -> Seq<char> {
    match seconds {
        Some(t) => crate::text::decimal2(t / 60) + ":"@ + crate::text::decimal2(t % 60),
        None => "--:--"@,
    }
}

/// Renders a download's remaining time.
pub fn format_eta(seconds: Option<u64>) -> (r: String)
    ensures
        r@ == format_eta_spec(
            match seconds {
                Some(t) => Some(t as nat),
                None => None,
            },
        ),
{
    match seconds {
        Some(total) => {
            let mut out: Vec<char> = Vec::new();
            push_decimal2(&mut out, total / 60);
            push_str(&mut out, ":");
            push_decimal2(&mut out, total % 60);
            string_from_chars(&out)
        },
        None => "--:--".to_owned(),
    }
}

/// The host names that only the local machine can reach.
pub open spec fn is_loopback_spec(host: Seq<char>) -> bool {
    host == "127.0.0.1"@ || host == "localhost"@ || host == "::1"@
}

/// Whether binding to `host` keeps the server private to this machine.
pub fn is_loopback(host: &str) -> (r: bool)
    ensures
        r == is_loopback_spec(host@),
{
    str_is(host, "127.0.0.1") || str_is(host, "localhost") || str_is(host, "::1")
}

/// How a server-driven download ended.
#[derive(Clone, Debug)]
pub enum DriveOutcome {
    /// The file was written to the given path.
    Completed(String),
    /// The user cancelled the session.
    Cancelled,
    /// The download failed with the given message.
    Failed(String),
}

/// The last event broadcast for a session.
#[derive(Clone, Debug)]
pub enum FinalEvent {
    Complete { output_path: String },
    Error { message: String },
}

/// How a session ends: its terminal state and the event broadcast for it.
pub open spec fn finish_spec(outcome: DriveOutcome, status: SessionStatus, event: FinalEvent) -> bool {
    match outcome {
        DriveOutcome::Completed(path) => status == SessionStatus::Complete && (
        event matches FinalEvent::Complete { output_path } && output_path@ == path@),
        DriveOutcome::Cancelled => status == SessionStatus::Cancelled && (
        event matches FinalEvent::Error { message } && message@ == "cancelled by user"@),
        DriveOutcome::Failed(m) => status == SessionStatus::Error && (
        event matches FinalEvent::Error { message } && message@ == m@),
    }
}

/// Decides how a session ends once its download has run: every outcome
/// leaves the session in a terminal state with a matching broadcast event.
pub fn finish_session(outcome: DriveOutcome) -> (r: (SessionStatus, FinalEvent))
    ensures
        r.0.is_finished_spec(),
        finish_spec(outcome, r.0, r.1),
{
    match outcome {
        DriveOutcome::Completed(path) => (
            SessionStatus::Complete,
            FinalEvent::Complete { output_path: path },
        ),
        DriveOutcome::Cancelled => (
            SessionStatus::Cancelled,
            FinalEvent::Error { message: "cancelled by user".to_owned() },
        ),
        DriveOutcome::Failed(m) => (SessionStatus::Error, FinalEvent::Error { message: m }),
    }
}

/// What the server keeps of a session's lifecycle: its state, and why it
/// failed or was cancelled once it has.
#[derive(Clone, Debug)]
pub struct SessionRecord {
    pub status: SessionStatus,
    pub error_message: Option<String>,
}

/// What happens to a session while the server drives its download.
#[derive(Clone, Debug)]
pub enum SessionEvent {
    /// The video's details are being fetched.
    MetadataRequested,
    /// The download itself has started.
    DownloadStarted,
    /// The downloader has started post-processing (merging streams).
    PostProcessStarted,
    /// The download ended.
    Finished(DriveOutcome),
}

/// How a session record changes: fetching the details, downloading and
/// post-processing set their state and keep the error text; the end sets
/// the state `finish_session` decides and, when the final event is an
/// error, keeps its message on the record.
pub open spec fn session_change_spec(
    old: SessionRecord,
    event: SessionEvent,
    new: SessionRecord,
    last: Option<FinalEvent>,
) -> bool {
    match event {
        SessionEvent::MetadataRequested => new.status == SessionStatus::FetchingMetadata
            && new.error_message == old.error_message && last is None,
        SessionEvent::DownloadStarted => new.status == SessionStatus::Downloading
            && new.error_message == old.error_message && last is None,
        SessionEvent::PostProcessStarted => new.status == SessionStatus::Merging
            && new.error_message == old.error_message && last is None,
        SessionEvent::Finished(outcome) => match last {
            Some(e) => finish_spec(outcome, new.status, e) && new.error_message == match e {
                FinalEvent::Error { message } => Some(message),
                FinalEvent::Complete { .. } => old.error_message,
            },
            None => false,
        },
    }
}

impl SessionRecord {
    /// The record of a session that has just been accepted.
    pub fn pending() -> (r: SessionRecord)
        ensures
            r.status == SessionStatus::Pending,
            r.error_message is None,
    {
        SessionRecord { status: SessionStatus::Pending, error_message: None }
    }

    /// Applies what happened to the session; at its end, returns the event
    /// to broadcast (see `session_change_spec`).
    pub fn apply(&mut self, event: SessionEvent) -> (r: Option<FinalEvent>)
        ensures
            session_change_spec(*old(self), event, *final(self), r),
            final(self).status.is_finished_spec() <==> event is Finished,
    {
        match event {
            SessionEvent::MetadataRequested => {
                self.status = SessionStatus::FetchingMetadata;
                None
            },
            SessionEvent::DownloadStarted => {
                self.status = SessionStatus::Downloading;
                None
            },
            SessionEvent::PostProcessStarted => {
                self.status = SessionStatus::Merging;
                None
            },
            SessionEvent::Finished(outcome) => {
                let (status, last) = finish_session(outcome);
                self.status = status;
                match &last {
                    FinalEvent::Error { message } => {
                        self.error_message = Some(message.clone());
                    },
                    FinalEvent::Complete { .. } => {},
                }
                Some(last)
            },
        }
    }
}

/// The text fields of a progress event: speed, remaining time and total size.
#[derive(Clone, Debug)]
pub struct ProgressText {
    pub speed: String,
    pub eta: String,
    pub size: String,
}

/// Renders the engine's progress report for clients: the speed (whole bytes
/// per second) as a size followed by `/s`, the remaining time, the total size.
pub fn progress_text(speed_bytes_per_sec: u64, eta_seconds: Option<u64>, total_bytes: u64) -> (r: ProgressText)
    ensures
        r.speed@ == crate::commands::render::format_size_spec(speed_bytes_per_sec as nat) + "/s"@,
        r.eta@ == format_eta_spec(
            match eta_seconds {
                Some(t) => Some(t as nat),
                None => None,
            },
        ),
        r.size@ == crate::commands::render::format_size_spec(total_bytes as nat),
{
    let speed_size = crate::commands::render::format_size(speed_bytes_per_sec);
    let mut speed = chars_of(speed_size.as_str());
    push_str(&mut speed, "/s");
    ProgressText {
        speed: string_from_chars(&speed),
        eta: format_eta(eta_seconds),
        size: crate::commands::render::format_size(total_bytes),
    }
}

/// How many finished sessions the server keeps; active sessions are never evicted.
pub const MAX_FINISHED_SESSIONS: usize = 50;

/// What eviction reads of a session: its id, state and creation time
/// (in any unit that grows with time).
#[derive(Clone, Copy, Debug)]
pub struct SessionEntry {
    pub id: u128,
    pub status: SessionStatus,
    pub created_at: u64,
}

/// The number of finished sessions in `s`.
pub open spec fn count_finished(s: Seq<SessionEntry>) -> nat
    decreases s.len(),
{
    if s.len() == 0 {
        0
    } else {
        count_finished(s.drop_last()) + if s.last().status.is_finished_spec() {
            1nat
        } else {
            0nat
        }
    }
}

/// How many finished sessions exceed the cap.
pub open spec fn eviction_count(s: Seq<SessionEntry>) -> nat {
    if count_finished(s) > 50 {
        (count_finished(s) - 50) as nat
    } else {
        0
    }
}

/// No two sessions share an id (as in the server's map of sessions).
pub open spec fn distinct_ids(s: Seq<SessionEntry>) -> bool {
    forall|i: int, j: int|
        0 <= i < s.len() && 0 <= j < s.len() && i != j ==> #[trigger] s[i].id != #[trigger] s[j].id
}

/// Whether `x` is the id of a finished session in `s`.
pub open spec fn is_finished_id(s: Seq<SessionEntry>, x: u128) -> bool {
    exists|i: int| 0 <= i < s.len() && #[trigger] s[i].id == x && s[i].status.is_finished_spec()
}

/// Whether the ids `r` evict the oldest finished sessions of `s` beyond the
/// cap: exactly as many as exceed it, each a finished session, none
/// twice, and none newer than a finished session that stays.
pub open spec fn is_eviction_plan(s: Seq<SessionEntry>, r: Seq<u128>) -> bool {
    &&& r.len() == eviction_count(s)
    &&& r.no_duplicates()
    &&& forall|k: int| 0 <= k < r.len() ==> is_finished_id(s, #[trigger] r[k])
    &&& forall|i: int, j: int|
        #![trigger r.contains(s[i].id), r.contains(s[j].id)]
        0 <= i < s.len() && 0 <= j < s.len() && s[i].status.is_finished_spec()
            && s[j].status.is_finished_spec() && r.contains(s[i].id) && !r.contains(s[j].id)
            ==> s[i].created_at <= s[j].created_at
}

proof fn lemma_unpicked_exists(picks: Seq<int>, m: int)
    requires
        picks.no_duplicates(),
        picks.len() < m,
        forall|k: int| 0 <= k < picks.len() ==> 0 <= #[trigger] picks[k] < m,
    ensures
        exists|p: int| 0 <= p < m && !picks.contains(p),
{
    if forall|p: int| 0 <= p < m ==> picks.contains(p) {
        vstd::set_lib::lemma_int_range(0, m);
        picks.unique_seq_to_set();
        assert(vstd::set_lib::set_int_range(0, m).subset_of(picks.to_set()));
        vstd::set_lib::lemma_len_subset(vstd::set_lib::set_int_range(0, m), picks.to_set());
    }
}

/// The sessions to evict: the oldest finished ones beyond the cap of
/// `MAX_FINISHED_SESSIONS` (see `is_eviction_plan`).
pub fn eviction_plan(entries: &Vec<SessionEntry>) -> (r: Vec<u128>)
    requires
        distinct_ids(entries@),
    ensures
        is_eviction_plan(entries@, r@),
{
    let n = entries.len();
    let ghost s = entries@;
    let mut fin: Vec<usize> = Vec::new();
    let mut i: usize = 0;
    while i < n
        invariant
            i <= n == s.len(),
            s == entries@,
            fin@.len() == count_finished(s.take(i as int)),
            forall|k: int| 0 <= k < fin@.len() ==> #[trigger] fin@[k] < i && s[fin@[k] as int].status.is_finished_spec(),
            forall|k1: int, k2: int| 0 <= k1 < k2 < fin@.len() ==> #[trigger] fin@[k1] < #[trigger] fin@[k2],
            forall|p: int| 0 <= p < i && s[p].status.is_finished_spec() ==> exists|k: int| 0 <= k < fin@.len() && #[trigger] fin@[k] == p,
        decreases n - i,
    {
        proof {
            assert(s.take(i + 1).drop_last() =~= s.take(i as int));
        }
        let ghost old_fin = fin@;
        if entries[i].status.is_finished() {
            fin.push(i);
            proof {
                assert(fin@[fin@.len() - 1] == i);
            }
        }
        proof {
            assert forall|p: int| 0 <= p < i + 1 && s[p].status.is_finished_spec() implies exists|k: int| 0 <= k < fin@.len() && #[trigger] fin@[k] == p by {
                if p < i {
                    let k = choose|k: int| 0 <= k < old_fin.len() && #[trigger] old_fin[k] == p;
                    assert(fin@[k] == p);
                } else {
                    assert(fin@[fin@.len() - 1] == p);
                }
            }
        }
        i = i + 1;
    }
    assert(s.take(n as int) =~= s);
    let m = fin.len();
    if m <= MAX_FINISHED_SESSIONS {
        let r: Vec<u128> = Vec::new();
        assert(r@.no_duplicates());
        return r;
    }
    let overflow = m - MAX_FINISHED_SESSIONS;
    let mut chosen: Vec<bool> = Vec::new();
    let mut j: usize = 0;
    while j < m
        invariant
            j <= m == fin@.len(),
            chosen@.len() == j,
            forall|p: int| 0 <= p < j ==> !(#[trigger] chosen@[p]),
        decreases m - j,
    {
        chosen.push(false);
        j = j + 1;
    }
    let mut result: Vec<u128> = Vec::new();
    let ghost mut picks: Seq<int> = Seq::empty();
    while result.len() < overflow
        invariant
            s == entries@,
            n == s.len(),
            distinct_ids(s),
            m == fin@.len(),
            overflow <= m,
            chosen@.len() == m,
            forall|k: int| 0 <= k < m ==> #[trigger] fin@[k] < n && s[fin@[k] as int].status.is_finished_spec(),
            forall|k1: int, k2: int| 0 <= k1 < k2 < m ==> #[trigger] fin@[k1] < #[trigger] fin@[k2],
            result@.len() == picks.len() <= overflow,
            picks.no_duplicates(),
            forall|k: int| 0 <= k < picks.len() ==> 0 <= #[trigger] picks[k] < m,
            forall|k: int| 0 <= k < picks.len() ==> #[trigger] result@[k] == s[fin@[picks[k]] as int].id,
            forall|p: int| 0 <= p < m ==> (#[trigger] chosen@[p] <==> picks.contains(p)),
            forall|p: int, q: int|
                0 <= p < m && 0 <= q < m && #[trigger] chosen@[p] && !#[trigger] chosen@[q] ==> s[fin@[p] as int].created_at
                    <= s[fin@[q] as int].created_at,
        decreases overflow - result@.len(),
    {
        proof {
            lemma_unpicked_exists(picks, m as int);
        }
        let mut best: usize = m;
        let mut k: usize = 0;
        while k < m
            invariant
                k <= m == fin@.len() == chosen@.len(),
                forall|x: int| 0 <= x < m ==> #[trigger] fin@[x] < n,
                n == s.len(),
                s == entries@,
                best == m || (best < k && !chosen@[best as int]),
                best < m ==> forall|q: int| 0 <= q < k && !#[trigger] chosen@[q] ==> s[fin@[best as int] as int].created_at <= s[fin@[q] as int].created_at,
                best == m ==> forall|q: int| 0 <= q < k ==> #[trigger] chosen@[q],
            decreases m - k,
        {
            if !chosen[k] {
                if best == m || entries[fin[k]].created_at < entries[fin[best]].created_at {
                    best = k;
                }
            }
            k = k + 1;
        }
        proof {
            if best == m {
                let p = choose|p: int| 0 <= p < m && !picks.contains(p);
                assert(chosen@[p]);
            }
        }
        let ghost old_chosen = chosen@;
        let ghost old_picks = picks;
        chosen.set(best, true);
        result.push(entries[fin[best]].id);
        proof {
            picks = picks.push(best as int);
            assert(!old_picks.contains(best as int));
            assert forall|a: int, b: int| 0 <= a < b < picks.len() implies picks[a] != picks[b] by {
                if b == picks.len() - 1 {
                    assert(old_picks.contains(picks[a]));
                }
            }
            assert forall|p: int| 0 <= p < m implies (#[trigger] chosen@[p] <==> picks.contains(p)) by {
                if p == best {
                    assert(picks[picks.len() - 1] == p);
                } else {
                    assert(chosen@[p] == old_chosen[p]);
                    if old_picks.contains(p) {
                        let w = choose|w: int| 0 <= w < old_picks.len() && old_picks[w] == p;
                        assert(picks[w] == p);
                    }
                    if picks.contains(p) {
                        let w = choose|w: int| 0 <= w < picks.len() && picks[w] == p;
                        assert(w < old_picks.len());
                        assert(old_picks[w] == p);
                    }
                }
            }
            assert forall|k: int| 0 <= k < picks.len() implies #[trigger] result@[k] == s[fin@[picks[k]] as int].id by {
            }
        }
    }
    proof {
        let r = result@;
        assert forall|a: int, b: int| 0 <= a < b < r.len() implies r[a] != r[b] by {
            assert(picks[a] != picks[b]);
            if picks[a] < picks[b] {
                assert(fin@[picks[a]] < fin@[picks[b]]);
            } else {
                assert(fin@[picks[b]] < fin@[picks[a]]);
            }
        }
        assert forall|k: int| 0 <= k < r.len() implies is_finished_id(s, #[trigger] r[k]) by {
            let i = fin@[picks[k]] as int;
            assert(s[i].id == r[k]);
        }
        assert forall|a: int, b: int|
            #![trigger r.contains(s[a].id), r.contains(s[b].id)]
            0 <= a < s.len() && 0 <= b < s.len() && s[a].status.is_finished_spec()
                && s[b].status.is_finished_spec() && r.contains(s[a].id) && !r.contains(s[b].id)
                implies s[a].created_at <= s[b].created_at by {
            let ka = choose|ka: int| 0 <= ka < fin@.len() && #[trigger] fin@[ka] == a;
            let kb = choose|kb: int| 0 <= kb < fin@.len() && #[trigger] fin@[kb] == b;
            let w = choose|w: int| 0 <= w < r.len() && r[w] == s[a].id;
            assert(r[w] == s[fin@[picks[w]] as int].id);
            assert(fin@[picks[w]] == a);
            if picks[w] != ka {
                if picks[w] < ka {
                    assert(fin@[picks[w]] < fin@[ka]);
                } else {
                    assert(fin@[ka] < fin@[picks[w]]);
                }
            }
            assert(chosen@[ka]);
            if chosen@[kb] {
                let v = choose|v: int| 0 <= v < picks.len() && picks[v] == kb;
                assert(r[v] == s[b].id);
                assert(r.contains(s[b].id));
            }
        }
        assert(r.no_duplicates());
    }
    result
}

/// Whether `order` lists the positions of `created` from newest to oldest,
/// keeping positions with the same time in the order given.
pub open spec fn is_newest_first(created: Seq<u64>, order: Seq<usize>) -> bool {
    &&& order.len() == created.len()
    &&& order.no_duplicates()
    &&& forall|k: int| 0 <= k < order.len() ==> #[trigger] order[k] < created.len()
    &&& forall|a: int, b: int|
        0 <= a < b < order.len() ==> created[#[trigger] order[a] as int] >= created[#[trigger] order[b] as int]
    &&& forall|a: int, b: int|
        0 <= a < b < order.len() && created[#[trigger] order[a] as int] == created[#[trigger] order[b] as int]
            ==> order[a] < order[b]
}

/// The order in which `GET /api/downloads` lists sessions: newest first,
/// ties kept in the order given (see `is_newest_first`).
pub fn newest_first(created: &Vec<u64>) -> (r: Vec<usize>)
    ensures
        is_newest_first(created@, r@),
{
    let n = created.len();
    let mut res: Vec<usize> = Vec::new();
    let mut i: usize = 0;
    while i < n
        invariant
            i <= n == created@.len(),
            res@.len() == i,
            res@.no_duplicates(),
            forall|k: int| 0 <= k < res@.len() ==> #[trigger] res@[k] < i,
            forall|a: int, b: int|
                0 <= a < b < res@.len() ==> created@[#[trigger] res@[a] as int] >= created@[#[trigger] res@[b] as int],
            forall|a: int, b: int|
                0 <= a < b < res@.len() && created@[#[trigger] res@[a] as int] == created@[#[trigger] res@[b] as int]
                    ==> res@[a] < res@[b],
        decreases n - i,
    {
        let c = created[i];
        let mut pos: usize = 0;
        while pos < res.len() && created[res[pos]] >= c
            invariant
                pos <= res@.len(),
                res@.len() == i,
                i < n == created@.len(),
                c == created@[i as int],
                forall|k: int| 0 <= k < res@.len() ==> #[trigger] res@[k] < i,
                forall|k: int| 0 <= k < pos ==> created@[#[trigger] res@[k] as int] >= c,
            decreases res@.len() - pos,
        {
            pos = pos + 1;
        }
        let ghost old_res = res@;
        proof {
            assert forall|k: int| pos <= k < old_res.len() implies created@[#[trigger] old_res[k] as int] < c by {
                if k > pos {
                    assert(created@[old_res[pos as int] as int] >= created@[old_res[k] as int]);
                }
            }
        }
        res.insert(pos, i);
        proof {
            let nr = res@;
            assert(nr == old_res.insert(pos as int, i));
            assert forall|k: int| 0 <= k < nr.len() implies #[trigger] nr[k] < i + 1 by {
                if k < pos {
                    assert(nr[k] == old_res[k]);
                } else if k > pos {
                    assert(nr[k] == old_res[k - 1]);
                }
            }
            assert forall|a: int, b: int| 0 <= a < b < nr.len() implies nr[a] != nr[b] by {
                if a < pos && b < pos {
                    assert(nr[a] == old_res[a] && nr[b] == old_res[b]);
                } else if a < pos && b == pos {
                    assert(nr[a] == old_res[a]);
                } else if a < pos && b > pos {
                    assert(nr[a] == old_res[a] && nr[b] == old_res[b - 1]);
                } else if a == pos {
                    assert(nr[b] == old_res[b - 1]);
                } else {
                    assert(nr[a] == old_res[a - 1] && nr[b] == old_res[b - 1]);
                }
            }
            assert forall|a: int, b: int|
                0 <= a < b < nr.len() implies created@[#[trigger] nr[a] as int] >= created@[#[trigger] nr[b] as int] by {
                if a < pos && b < pos {
                    assert(nr[a] == old_res[a] && nr[b] == old_res[b]);
                } else if a < pos && b == pos {
                    assert(nr[a] == old_res[a]);
                } else if a < pos && b > pos {
                    assert(nr[a] == old_res[a] && nr[b] == old_res[b - 1]);
                } else if a == pos {
                    assert(nr[b] == old_res[b - 1]);
                } else {
                    assert(nr[a] == old_res[a - 1] && nr[b] == old_res[b - 1]);
                }
            }
            assert forall|a: int, b: int|
                0 <= a < b < nr.len() && created@[#[trigger] nr[a] as int] == created@[#[trigger] nr[b] as int]
                    implies nr[a] < nr[b] by {
                if a < pos && b < pos {
                    assert(nr[a] == old_res[a] && nr[b] == old_res[b]);
                } else if a < pos && b == pos {
                    assert(nr[a] == old_res[a]);
                } else if a < pos && b > pos {
                    assert(nr[a] == old_res[a] && nr[b] == old_res[b - 1]);
                } else if a == pos {
                    assert(nr[b] == old_res[b - 1]);
                } else {
                    assert(nr[a] == old_res[a - 1] && nr[b] == old_res[b - 1]);
                }
            }
        }
        i = i + 1;
    }
    res
}

/// An HTTP error answer: its status code and the text of its `error` field.
#[derive(Clone, Debug)]
pub struct ApiError {
    pub status: u16,
    pub message: String,
}

impl ApiError {
    /// An error answer with the given status.
    pub fn new(status: u16, message: &str) -> (r: ApiError)
        ensures
            r.status == status,
            r.message@ == message@,
    {
        ApiError { status, message: message.to_owned() }
    }

    /// A `422 Unprocessable Entity` answer.
    pub fn unprocessable(message: &str) -> (r: ApiError)
        ensures
            r.status == 422,
            r.message@ == message@,
    {
        Self::new(422, message)
    }

    /// A `500 Internal Server Error` answer.
    pub fn internal(message: &str) -> (r: ApiError)
        ensures
            r.status == 500,
            r.message@ == message@,
    {
        Self::new(500, message)
    }

    /// A `404 Not Found` answer.
    pub fn not_found(message: &str) -> (r: ApiError)
        ensures
            r.status == 404,
            r.message@ == message@,
    {
        Self::new(404, message)
    }
}

/// Whether optional text holds more than white space.
pub open spec fn has_text(v: Option<Seq<char>>) -> bool {
    match v {
        Some(t) => trim_spec(t).len() > 0,
        None => false,
    }
}

fn text_present(v: Option<&str>) -> (r: bool)
    ensures
        r == has_text(crate::downloader::opt_str_view(v)),
{
    match v {
        Some(t) => trim(t).unicode_len() > 0,
        None => false,
    }
}

/// How `POST /api/download` answers before a session starts: the URL is
/// required, clipping (`start`/`end`) is refused, Spotify is refused; else
/// the URL as given.
pub open spec fn download_request_spec(platform: Platform, url: Option<Seq<char>>, has_clip: bool) -> Result<Seq<char>, (u16, Seq<char>)> {
    if !has_text(url) {
        Err((422u16, "Field \"url\" is required."@))
    } else if has_clip {
        Err((422u16, "Clipping is not yet supported."@))
    } else if platform == Platform::Spotify {
        Err((422u16, "Spotify downloads are not yet supported via the web API."@))
    } else {
        Ok(url->0)
    }
}

/// Validates the body of `POST /api/download` (see `download_request_spec`).
pub fn validate_download_request(platform: Platform, url: Option<&str>, has_clip: bool) -> (r: Result<String, ApiError>)
    ensures
        match (r, download_request_spec(platform, crate::downloader::opt_str_view(url), has_clip)) {
            (Ok(a), Ok(b)) => a@ == b,
            (Err(e), Err(f)) => e.status == f.0 && e.message@ == f.1,
            _ => false,
        },
{
    if !text_present(url) {
        return Err(ApiError::unprocessable("Field \"url\" is required."));
    }
    if has_clip {
        return Err(ApiError::unprocessable("Clipping is not yet supported."));
    }
    if platform == Platform::Spotify {
        return Err(ApiError::unprocessable("Spotify downloads are not yet supported via the web API."));
    }
    match url {
        Some(u) => Ok(u.to_owned()),
        None => Err(ApiError::unprocessable("Field \"url\" is required.")),
    }
}

/// How a started session is checked before any download work: clipping is
/// refused first, then a missing URL; else the URL as given.
pub open spec fn session_request_spec(url: Option<Seq<char>>, has_clip: bool) -> Result<Seq<char>, Seq<char>> {
    if has_clip {
        Err("Clipping is not yet supported."@)
    } else if !has_text(url) {
        Err("Field \"url\" is required."@)
    } else {
        Ok(url->0)
    }
}

/// Checks a session's request when its download starts (see `session_request_spec`).
pub fn validate_session_request(url: Option<&str>, has_clip: bool) -> (r: Result<String, String>)
    ensures
        match (r, session_request_spec(crate::downloader::opt_str_view(url), has_clip)) {
            (Ok(a), Ok(b)) => a@ == b,
            (Err(e), Err(f)) => e@ == f,
            _ => false,
        },
{
    if has_clip {
        return Err("Clipping is not yet supported.".to_owned());
    }
    if !text_present(url) {
        return Err("Field \"url\" is required.".to_owned());
    }
    match url {
        Some(u) => Ok(u.to_owned()),
        None => Err("Field \"url\" is required.".to_owned()),
    }
}

/// Checks the URL of `POST /api/fetch-metadata`.
pub fn validate_metadata_request(url: &str) -> (r: Result<(), ApiError>)
    ensures
        r is Ok <==> trim_spec(url@).len() > 0,
        r matches Err(e) ==> e.status == 422 && e.message@ == "Field \"url\" is required."@,
{
    if trim(url).unicode_len() == 0 {
        Err(ApiError::unprocessable("Field \"url\" is required."))
    } else {
        Ok(())
    }
}

/// Checks a config sent to `PUT /api/config`: a cookies file and a browser
/// to import cookies from cannot both be set.
pub fn validate_config_update(cfg: &Config) -> (r: Result<(), ApiError>)
    ensures
        r is Ok <==> !(cfg.cookies_file is Some && cfg.cookies_from_browser is Some),
        r matches Err(e) ==> e.status == 422 && e.message@
            == "cookies_file and cookies_from_browser are mutually exclusive."@,
{
    if cfg.cookies_file.is_some() && cfg.cookies_from_browser.is_some() {
        Err(ApiError::unprocessable("cookies_file and cookies_from_browser are mutually exclusive."))
    } else {
        Ok(())
    }
}

/// How `DELETE /api/download/{id}` answers: the session is cancelled when
/// it exists, else `404`.
pub fn cancel_response(found: bool) -> (r: Result<(), ApiError>)
    ensures
        r is Ok <==> found,
        r matches Err(e) ==> e.status == 404 && e.message@ == "Session not found."@,
{
    if found {
        Ok(())
    } else {
        Err(ApiError::not_found("Session not found."))
    }
}

/// A message a WebSocket client sends.
#[derive(Clone, Copy, Debug, PartialEq, Eq, Structural)]
pub enum ClientMessage {
    Subscribe(u128),
    Unsubscribe(u128),
    Ping,
}

/// What the server sends straight back to a client message.
#[derive(Clone, Copy, Debug, PartialEq, Eq, Structural)]
pub enum ClientReply {
    NoReply,
    Pong,
}

/// The sessions a client follows after a message.
pub open spec fn subscriptions_after(s: Set<u128>, msg: ClientMessage) -> Set<u128> {
    match msg {
        ClientMessage::Subscribe(id) => s.insert(id),
        ClientMessage::Unsubscribe(id) => s.remove(id),
        ClientMessage::Ping => s,
    }
}

/// The reply to a client message: `pong` to a ping, nothing otherwise.
pub open spec fn reply_to(msg: ClientMessage) -> ClientReply {
    match msg {
        ClientMessage::Ping => ClientReply::Pong,
        _ => ClientReply::NoReply,
    }
}

/// The sessions one WebSocket client has subscribed to.
pub struct Subscriptions {
    subscribed: HashSet<u128>,
}

impl View for Subscriptions {
    type V = Set<u128>;

    closed spec fn view(&self) -> Set<u128> {
        self.subscribed@
    }
}

impl Subscriptions {
    /// A client that follows no session.
    pub fn new() -> (r: Subscriptions)
        ensures
            r@ == Set::<u128>::empty(),
    {
        Subscriptions { subscribed: HashSet::new() }
    }

    /// Applies a client message and returns what is sent straight back.
    pub fn handle(&mut self, msg: ClientMessage) -> (r: ClientReply)
        ensures
            final(self)@ == subscriptions_after(old(self)@, msg),
            r == reply_to(msg),
    {
        match msg {
            ClientMessage::Subscribe(id) => {
                self.subscribed.insert(id);
                ClientReply::NoReply
            },
            ClientMessage::Unsubscribe(id) => {
                self.subscribed.remove(&id);
                ClientReply::NoReply
            },
            ClientMessage::Ping => ClientReply::Pong,
        }
    }

    /// Whether an event of the given session is forwarded to this client.
    pub fn forwards(&self, session_id: u128) -> (r: bool)
        ensures
            r == self@.contains(session_id),
    {
        self.subscribed.contains(&session_id)
    }
}

} // verus!
