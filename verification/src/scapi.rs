//! Talking to SoundCloud's public API with a scraped `client_id`: the request
//! URLs, the circuit breaker that stops hammering SoundCloud after a burst of
//! failures, and the decisions of one catalog request (refresh the client id
//! and retry once, unless SoundCloud answered with a definitive 4xx).

use vstd::prelude::*;
use vstd::string::*;
use vstd::utf8::encode_utf8;

use crate::catalog::{lyrics_from_lrclib, lyrics_none, lyrics_doc, lyrics_none_doc};
use crate::json::{items_view, lemma_items_view, Json, JsonV};
use crate::outside::{first_capture, opt_view, percent_encoded, regex_first_group, url_encode};
use crate::text::{
    chars_of, concat, decimal, decimal_string, is_ascii_digit, is_prefix, parse_unsigned,
    parse_unsigned_chars, strip_prefix, string_of, trim, trim_str,
};

verus! {

/// SoundCloud's public API.
pub const SC_API_V2: &'static str = "https://api-v2.soundcloud.com";

/// The open lyrics API.
pub const LRCLIB_API: &'static str = "https://lrclib.net/api";

/// Failures in a row after which the circuit opens.
pub const FAIL_THRESHOLD: u8 = 3;

/// Seconds the circuit stays open.
pub const COOLDOWN_SECS: u64 = 300;

/// Milliseconds within which a fresh client id is not fetched again.
pub const CLIENT_ID_MIN_REFRESH_MS: u64 = 30_000;

/// Milliseconds a fetched playlist stays usable for paging.
pub const PLAYLIST_CACHE_TTL_MS: u64 = 120_000;

/// Where the client id sits in `window.__sc_hydration` on soundcloud.com.
pub const CLIENT_ID_PATTERN: &'static str = r#""hydratable"\s*:\s*"apiClient"\s*,\s*"data"\s*:\s*\{\s*"id"\s*:\s*"([^"]+)""#;

// ---------------------------------------------------------------------------
// Circuit breaker
// ---------------------------------------------------------------------------

/// Failures in a row and the second until which the circuit is open after a
/// failure at second `now`.
pub open spec fn failure_step(failures: nat, open_until: nat, now: u64) -> (nat, nat) {
    if failures + 1 >= FAIL_THRESHOLD {
        (0, (now + COOLDOWN_SECS) as nat)
    } else {
        (failures + 1, open_until)
    }
}

/// Counts failures in a row and opens for `COOLDOWN_SECS` after
/// `FAIL_THRESHOLD` of them.
pub struct CircuitBreaker {
    fail_count: u8,
    cooldown_until: u64,
}

impl CircuitBreaker {
    /// Failures in a row so far.
    pub closed spec fn failures(&self) -> nat {
        self.fail_count as nat
    }

    /// The second until which the circuit is open (0: never opened or reset).
    pub closed spec fn open_until(&self) -> nat {
        self.cooldown_until as nat
    }

    pub open spec fn wf(&self) -> bool {
        self.failures() < FAIL_THRESHOLD
    }

    /// A closed circuit with no failure.
    pub fn new() -> (b: Self)
        ensures
            b.wf(),
            b.failures() == 0,
            b.open_until() == 0,
    {
        CircuitBreaker { fail_count: 0, cooldown_until: 0 }
    }

    /// The circuit is open at second `now`.
    pub fn in_cooldown(&self, now: u64) -> (r: bool)
        ensures
            r == (self.open_until() > now),
    {
        self.cooldown_until > now
    }

    /// A request went through: the count and the cooldown reset.
    pub fn note_success(&mut self)
        ensures
            final(self).wf(),
            final(self).failures() == 0,
            final(self).open_until() == 0,
    {
        self.fail_count = 0;
        self.cooldown_until = 0;
    }

    /// A request failed at second `now`; `true` when this failure opened the
    /// circuit (until `now + COOLDOWN_SECS`, with the count reset).
    pub fn note_failure(&mut self, now: u64) -> (opened: bool)
        requires
            old(self).wf(),
            now <= u64::MAX - COOLDOWN_SECS,
        ensures
            final(self).wf(),
            opened == (old(self).failures() + 1 >= FAIL_THRESHOLD),
            (final(self).failures(), final(self).open_until()) == failure_step(
                old(self).failures(),
                old(self).open_until(),
                now,
            ),
    {
        let count = self.fail_count + 1;
        if count >= FAIL_THRESHOLD {
            self.cooldown_until = now + COOLDOWN_SECS;
            self.fail_count = 0;
            true
        } else {
            self.fail_count = count;
            false
        }
    }
}

// ---------------------------------------------------------------------------
// URLs and answers
// ---------------------------------------------------------------------------

/// The `&k=v` parameters of a SoundCloud URL; empty values are left out.
pub open spec fn query_tail(params: Seq<(Seq<char>, Seq<char>)>) -> Seq<char>
    decreases params.len(),
{
    if params.len() == 0 {
        Seq::empty()
    } else {
        let (k, v) = params.last();
        query_tail(params.drop_last()) + if v.len() > 0 {
            "&"@ + k + "="@ + percent_encoded(encode_utf8(v))
        } else {
            Seq::empty()
        }
    }
}

/// The API URL for `path` with `client_id` and `params`.
pub open spec fn sc_url_spec(
    path: Seq<char>,
    client_id: Seq<char>,
    params: Seq<(Seq<char>, Seq<char>)>,
) -> Seq<char> {
    SC_API_V2@ + path + "?client_id="@ + client_id + query_tail(params)
}

/// The API URL for `path` with `client_id` and `params`.
pub fn build_sc_url(path: &str, client_id: &str, params: &[(String, String)]) -> (r: String)
    ensures
        r@ == sc_url_spec(
            path@,
            client_id@,
            params@.map_values(|p: (String, String)| (p.0@, p.1@)),
        ),
{
    let ghost pv = params@.map_values(|p: (String, String)| (p.0@, p.1@));
    let mut url = concat(SC_API_V2, path);
    url = concat(url.as_str(), "?client_id=");
    url = concat(url.as_str(), client_id);
    assert(pv.subrange(0, 0) =~= Seq::<(Seq<char>, Seq<char>)>::empty());
    for i in 0..params.len()
        invariant
            pv == params@.map_values(|p: (String, String)| (p.0@, p.1@)),
            url@ == SC_API_V2@ + path@ + "?client_id="@ + client_id@ + query_tail(
                pv.subrange(0, i as int),
            ),
    {
        let (k, v) = (&params[i].0, &params[i].1);
        assert(pv.subrange(0, i + 1).drop_last() =~= pv.subrange(0, i as int));
        assert(pv.subrange(0, i + 1).last() == (k@, v@));
        if !v.as_str().is_empty() {
            url = concat(url.as_str(), "&");
            url = concat(url.as_str(), k.as_str());
            url = concat(url.as_str(), "=");
            let enc = url_encode(v.as_str());
            url = concat(url.as_str(), enc.as_str());
        } else {
            assert(v@.len() == 0);
        }
    }
    assert(pv.subrange(0, params@.len() as int) =~= pv);
    url
}

/// The leading ASCII digits of `s`.
pub open spec fn leading_digits(s: Seq<char>) -> Seq<char>
    decreases s.len(),
{
    if s.len() > 0 && is_ascii_digit(s[0]) {
        seq![s[0]] + leading_digits(s.drop_first())
    } else {
        Seq::empty()
    }
}

/// The status code of an `HTTP <status>` error message.
pub open spec fn http_status_spec(err: Seq<char>) -> Option<nat> {
    if is_prefix("HTTP "@, err) {
        parse_unsigned(leading_digits(err.subrange(5, err.len() as int)), 65535)
    } else {
        None
    }
}

proof fn lemma_leading_digits(s: Seq<char>, i: int)
    requires
        0 <= i <= s.len(),
        forall|j: int| 0 <= j < i ==> is_ascii_digit(s[j]),
        i == s.len() || !is_ascii_digit(s[i]),
    ensures
        leading_digits(s) == s.subrange(0, i),
    decreases i,
{
    if i > 0 {
        assert forall|j: int| 0 <= j < i - 1 implies is_ascii_digit(s.drop_first()[j]) by {
            assert(s.drop_first()[j] == s[j + 1]);
        }
        lemma_leading_digits(s.drop_first(), i - 1);
        assert(s.subrange(0, i) =~= seq![s[0]] + s.drop_first().subrange(0, i - 1));
    } else {
        assert(s.subrange(0, 0) =~= Seq::<char>::empty());
    }
}

/// The status of an `HTTP <status>` error message (such as `HTTP 404`), so
/// that a definitive 4xx answer can be told from a 5xx or a network failure.
pub fn http_status_of(err: &str) -> (r: Option<u16>)
    ensures
        match r {
            Some(s) => http_status_spec(err@) == Some(s as nat),
            None => http_status_spec(err@) is None,
        },
{
    let rest = match strip_prefix(err, "HTTP ") {
        Some(r) => r,
        None => {
            proof {
                reveal_strlit("HTTP ");
            }
            return None;
        },
    };
    proof {
        reveal_strlit("HTTP ");
    }
    let cs = chars_of(rest.as_str());
    let mut k: usize = 0;
    while k < cs.len() && '0' <= cs[k] && cs[k] <= '9'
        invariant
            k <= cs@.len(),
            forall|j: int| 0 <= j < k ==> is_ascii_digit(cs@[j]),
        decreases cs.len() - k,
    {
        k = k + 1;
    }
    proof {
        lemma_leading_digits(cs@, k as int);
    }
    let mut digits: Vec<char> = Vec::new();
    let mut i: usize = 0;
    while i < k
        invariant
            i <= k <= cs@.len(),
            digits@ == cs@.subrange(0, i as int),
        decreases k - i,
    {
        digits.push(cs[i]);
        i = i + 1;
        assert(digits@ =~= cs@.subrange(0, i as int));
    }
    match parse_unsigned_chars(digits.as_slice(), 65535) {
        Some(n) => Some(n as u16),
        None => None,
    }
}

/// The public client id in the hydration data of soundcloud.com's page.
pub fn extract_client_id_from_hydration(html: &str) -> (r: Option<String>)
    ensures
        opt_view(r) == regex_first_group(CLIENT_ID_PATTERN@, html@),
{
    first_capture(CLIENT_ID_PATTERN, html)
}

/// The client id fetched less than `CLIENT_ID_MIN_REFRESH_MS` ago, which a
/// refresh hands back instead of fetching a new one.
pub open spec fn recent_client_id_spec(
    last_refresh: Option<u64>,
    now: u64,
    cached: Option<Seq<char>>,
) -> Option<Seq<char>> {
    match last_refresh {
        Some(t) => if (if now >= t {
            now - t
        } else {
            0
        }) < CLIENT_ID_MIN_REFRESH_MS {
            cached
        } else {
            None
        },
        None => None,
    }
}

/// The client id a refresh may reuse: the cached one, when the last refresh
/// (at millisecond `last_refresh`) is less than 30 s old.
pub fn recent_client_id(last_refresh: Option<u64>, now: u64, cached: Option<String>) -> (r: Option<
    String,
>)
    ensures
        opt_view(r) == recent_client_id_spec(last_refresh, now, opt_view(cached)),
{
    match last_refresh {
        Some(t) => {
            if now.saturating_sub(t) < CLIENT_ID_MIN_REFRESH_MS {
                cached
            } else {
                None
            }
        },
        None => None,
    }
}

/// A playlist stored at millisecond `stored_at` is still fresh at `now`.
pub fn playlist_cache_fresh(stored_at: u64, now: u64) -> (r: bool)
    ensures
        r == ((if now >= stored_at {
            now - stored_at
        } else {
            0
        }) < PLAYLIST_CACHE_TTL_MS),
{
    now.saturating_sub(stored_at) < PLAYLIST_CACHE_TTL_MS
}

// ---------------------------------------------------------------------------
// Lyrics
// ---------------------------------------------------------------------------

/// Where lyrics are looked up.
pub enum LyricsLookup {
    /// Artist or title is empty: the answer is the "none" document.
    Nothing,
    /// The exact LRCLIB lookup (when the duration is known) and the search
    /// to fall back to.
    Lrclib { exact: Option<String>, search: String },
}

pub open spec fn enc(s: Seq<char>) -> Seq<char> {
    percent_encoded(encode_utf8(s))
}

/// The exact lookup URL by artist, title and whole seconds.
pub open spec fn lrclib_get_url(artist: Seq<char>, title: Seq<char>, secs: nat) -> Seq<char> {
    LRCLIB_API@ + "/get?artist_name="@ + enc(artist) + "&track_name="@ + enc(title)
        + "&duration="@ + decimal(secs)
}

/// The search URL by artist and title.
pub open spec fn lrclib_search_url(artist: Seq<char>, title: Seq<char>) -> Seq<char> {
    LRCLIB_API@ + "/search?artist_name="@ + enc(artist) + "&track_name="@ + enc(title)
}

/// Whole seconds of a duration, at least one.
pub open spec fn duration_secs(ms: nat) -> nat {
    if ms / 1000 < 1 {
        1
    } else {
        ms / 1000
    }
}

/// The lyrics lookup for artist, title and duration: both trimmed, nothing
/// when one is empty.
pub open spec fn lyrics_lookup_spec(artist: Seq<char>, title: Seq<char>, duration_ms: Option<u64>) -> Option<(Option<Seq<char>>, Seq<char>)> {
    let a = trim(artist);
    let t = trim(title);
    if a.len() == 0 || t.len() == 0 {
        None
    } else {
        Some(
            (
                match duration_ms {
                    Some(ms) => Some(lrclib_get_url(a, t, duration_secs(ms as nat))),
                    None => None,
                },
                lrclib_search_url(a, t),
            ),
        )
    }
}

/// The lyrics lookup for artist, title and duration.
pub fn lyrics_lookup(artist: &str, title: &str, duration_ms: Option<u64>) -> (r: LyricsLookup)
    ensures
        match r {
            LyricsLookup::Nothing => lyrics_lookup_spec(artist@, title@, duration_ms) is None,
            LyricsLookup::Lrclib { exact, search } => lyrics_lookup_spec(
                artist@,
                title@,
                duration_ms,
            ) == Some((opt_view(exact), search@)),
        },
{
    let a = trim_str(artist);
    let t = trim_str(title);
    if a.as_str().is_empty() || t.as_str().is_empty() {
        return LyricsLookup::Nothing;
    }
    let ea = url_encode(a.as_str());
    let et = url_encode(t.as_str());
    let exact = match duration_ms {
        Some(ms) => {
            let secs = if ms / 1000 < 1 {
                1
            } else {
                ms / 1000
            };
            let mut u = concat(LRCLIB_API, "/get?artist_name=");
            u = concat(u.as_str(), ea.as_str());
            u = concat(u.as_str(), "&track_name=");
            u = concat(u.as_str(), et.as_str());
            u = concat(u.as_str(), "&duration=");
            let d = decimal_string(secs);
            u = concat(u.as_str(), d.as_str());
            Some(u)
        },
        None => None,
    };
    let mut s = concat(LRCLIB_API, "/search?artist_name=");
    s = concat(s.as_str(), ea.as_str());
    s = concat(s.as_str(), "&track_name=");
    s = concat(s.as_str(), et.as_str());
    LyricsLookup::Lrclib { exact, search: s }
}

/// The lyrics document of an LRCLIB search answer: its first record, or the
/// `none` document when nothing was found.
pub open spec fn lyrics_from_search_spec(v: JsonV) -> JsonV {
    match v {
        JsonV::Arr(items) => if items.len() > 0 {
            lyrics_doc(items[0])
        } else {
            lyrics_none_doc()
        },
        _ => lyrics_none_doc(),
    }
}

/// The lyrics document of an LRCLIB search answer.
pub fn lyrics_from_search(results: &Json) -> (r: Json)
    ensures
        r@ == lyrics_from_search_spec(results@),
{
    match results.as_array() {
        Some(items) => if items.len() > 0 {
            proof {
                lemma_items_view(items@);
            }
            lyrics_from_lrclib(&items[0])
        } else {
            lyrics_none()
        },
        None => lyrics_none(),
    }
}

/// A search answer with records gives the lyrics of its first record, the
/// best match: the records after it are never read.
pub proof fn law_search_takes_the_first_record(items: Seq<JsonV>)
    requires
        items.len() > 0,
    ensures
        lyrics_from_search_spec(JsonV::Arr(items)) == lyrics_doc(items[0]),
        forall|rest: Seq<JsonV>|
            #[trigger] lyrics_from_search_spec(JsonV::Arr(seq![items[0]] + rest))
                == lyrics_from_search_spec(JsonV::Arr(items)),
{
    assert forall|rest: Seq<JsonV>|
        #[trigger] lyrics_from_search_spec(JsonV::Arr(seq![items[0]] + rest))
            == lyrics_from_search_spec(JsonV::Arr(items)) by {
        assert((seq![items[0]] + rest)[0] == items[0]);
    }
}

/// What a lyrics lookup does next.
pub enum LyricsStep {
    /// Fetch this LRCLIB URL.
    Fetch(String),
    /// The lyrics document.
    Answer(Json),
    /// The lookup failed with this message.
    Fail(String),
}

/// Where a lyrics lookup stands.
#[derive(Clone, Copy, PartialEq, Eq, Structural, Debug)]
pub enum LyricsStage {
    /// The exact lookup is pending.
    Exact,
    /// The search is pending.
    Search,
    /// Done.
    Done,
}

/// A lyrics lookup: the exact LRCLIB lookup when the duration is known, the
/// first search hit when it is not or when the exact lookup fails.
pub struct LyricsFlow {
    pub stage: LyricsStage,
    /// The search URL to fall back to.
    pub search: String,
}

impl LyricsFlow {
    /// Starts the lookup for artist, title and duration.
    pub fn start(artist: &str, title: &str, duration_ms: Option<u64>) -> (r: (LyricsFlow, LyricsStep))
        ensures
            match lyrics_lookup_spec(artist@, title@, duration_ms) {
                None => {
                    &&& r.0.stage == LyricsStage::Done
                    &&& r.1 matches LyricsStep::Answer(d) && d@ == lyrics_none_doc()
                },
                Some((Some(exact), search)) => {
                    &&& r.0.stage == LyricsStage::Exact
                    &&& r.0.search@ == search
                    &&& r.1 matches LyricsStep::Fetch(u) && u@ == exact
                },
                Some((None, search)) => {
                    &&& r.0.stage == LyricsStage::Search
                    &&& r.0.search@ == search
                    &&& r.1 matches LyricsStep::Fetch(u) && u@ == search
                },
            },
    {
        match lyrics_lookup(artist, title, duration_ms) {
            LyricsLookup::Nothing => (
                LyricsFlow { stage: LyricsStage::Done, search: String::new() },
                LyricsStep::Answer(lyrics_none()),
            ),
            LyricsLookup::Lrclib { exact, search } => match exact {
                Some(u) => (LyricsFlow { stage: LyricsStage::Exact, search }, LyricsStep::Fetch(u)),
                None => {
                    let u = search.clone();
                    (LyricsFlow { stage: LyricsStage::Search, search }, LyricsStep::Fetch(u))
                },
            },
        }
    }

    /// The answer to the pending fetch: the decoded document, or the
    /// failure's message.
    pub fn on_answer(&mut self, answer: Result<Json, String>) -> (r: LyricsStep)
        requires
            old(self).stage != LyricsStage::Done,
        ensures
            final(self).search == old(self).search,
            match (old(self).stage, answer) {
                (LyricsStage::Exact, Ok(v)) => {
                    &&& final(self).stage == LyricsStage::Done
                    &&& r matches LyricsStep::Answer(d) && d@ == lyrics_doc(v@)
                },
                (LyricsStage::Exact, Err(_)) => {
                    &&& final(self).stage == LyricsStage::Search
                    &&& r matches LyricsStep::Fetch(u) && u@ == old(self).search@
                },
                (_, Ok(v)) => {
                    &&& final(self).stage == LyricsStage::Done
                    &&& r matches LyricsStep::Answer(d) && d@ == lyrics_from_search_spec(v@)
                },
                (_, Err(e)) => {
                    &&& final(self).stage == LyricsStage::Done
                    &&& r matches LyricsStep::Fail(m) && m@ == e@
                },
            },
    {
        match self.stage {
            LyricsStage::Exact => match answer {
                Ok(v) => {
                    self.stage = LyricsStage::Done;
                    LyricsStep::Answer(lyrics_from_lrclib(&v))
                },
                Err(_) => {
                    self.stage = LyricsStage::Search;
                    LyricsStep::Fetch(self.search.clone())
                },
            },
            _ => {
                self.stage = LyricsStage::Done;
                match answer {
                    Ok(v) => LyricsStep::Answer(lyrics_from_search(&v)),
                    Err(e) => LyricsStep::Fail(e),
                }
            },
        }
    }
}

// ---------------------------------------------------------------------------
// One catalog request
// ---------------------------------------------------------------------------

/// Where a catalog request stands.
pub enum GetStage {
    /// Waiting for a client id.
    ClientId,
    /// Waiting for the answer to the first request.
    First,
    /// The first request failed with `first`; waiting for a fresh client id.
    Refresh { first: String },
    /// Waiting for the answer to the retry; the first failed with `first`.
    Retry { first: String },
    /// Nothing more to do.
    Finished,
}

/// What the caller does next.
pub enum GetAction {
    /// End the request with this error.
    Fail(String),
    /// Get the client id (the cached one, or a fresh one).
    ObtainClientId,
    /// GET this URL.
    Request(String),
    /// Fetch a fresh client id.
    RefreshClientId,
    /// End the request with the answer just received.
    Succeed,
}

/// A catalog request for `path` with `params` against SoundCloud's API.
pub struct GetFlow {
    pub path: String,
    pub params: Vec<(String, String)>,
    pub stage: GetStage,
}

pub open spec fn params_view(v: Seq<(String, String)>) -> Seq<(Seq<char>, Seq<char>)> {
    v.map_values(|p: (String, String)| (p.0@, p.1@))
}

/// The first failure is a definitive client error (4xx): SoundCloud is fine,
/// there is just nothing there.
pub open spec fn definitive_client_error(err: Seq<char>) -> bool {
    match http_status_spec(err) {
        Some(s) => 400 <= s < 500,
        None => false,
    }
}

pub open spec fn action_fail(a: GetAction) -> Option<Seq<char>> {
    match a {
        GetAction::Fail(e) => Some(e@),
        _ => None,
    }
}

impl GetFlow {
    /// Starts a request: fails at once while the circuit is open at second
    /// `now`, else asks for a client id.
    pub fn start(path: String, params: Vec<(String, String)>, breaker: &CircuitBreaker, now: u64) -> (r: (
        GetFlow,
        GetAction,
    ))
        ensures
            r.0.path == path,
            r.0.params == params,
            breaker.open_until() > now ==> r.0.stage is Finished && action_fail(r.1) == Some(
                "scapi: circuit open (no client_id)"@,
            ),
            breaker.open_until() <= now ==> r.0.stage is ClientId && r.1 is ObtainClientId,
    {
        if breaker.in_cooldown(now) {
            (
                GetFlow { path, params, stage: GetStage::Finished },
                GetAction::Fail("scapi: circuit open (no client_id)".to_owned()),
            )
        } else {
            (GetFlow { path, params, stage: GetStage::ClientId }, GetAction::ObtainClientId)
        }
    }

    /// The client id arrived (or could not be had) at second `now`.
    pub fn on_client_id(
        &mut self,
        breaker: &mut CircuitBreaker,
        id: Result<String, String>,
        now: u64,
    ) -> (a: GetAction)
        requires
            old(self).stage is ClientId,
            old(breaker).wf(),
            now <= u64::MAX - COOLDOWN_SECS,
        ensures
            final(breaker).wf(),
            stage_rank(final(self).stage) < stage_rank(old(self).stage),
            final(self).path == old(self).path,
            final(self).params == old(self).params,
            match id {
                Err(e) => {
                    &&& final(self).stage is Finished
                    &&& action_fail(a) == Some(e@)
                    &&& (final(breaker).failures(), final(breaker).open_until()) == failure_step(
                        old(breaker).failures(),
                        old(breaker).open_until(),
                        now,
                    )
                },
                Ok(cid) => {
                    &&& final(self).stage is First
                    &&& *final(breaker) == *old(breaker)
                    &&& a matches GetAction::Request(u) && u@ == sc_url_spec(
                        old(self).path@,
                        cid@,
                        params_view(old(self).params@),
                    )
                },
            },
    {
        match id {
            Err(e) => {
                breaker.note_failure(now);
                self.stage = GetStage::Finished;
                GetAction::Fail(e)
            },
            Ok(cid) => {
                let url = build_sc_url(self.path.as_str(), cid.as_str(), self.params.as_slice());
                self.stage = GetStage::First;
                GetAction::Request(url)
            },
        }
    }

    /// The answer to the pending request arrived at second `now`: `Ok` when
    /// it succeeded, else the failure's message.
    pub fn on_response(&mut self, breaker: &mut CircuitBreaker, outcome: Result<(), String>, now: u64) -> (a: GetAction)
        requires
            old(self).stage is First || old(self).stage is Retry,
            old(breaker).wf(),
            now <= u64::MAX - COOLDOWN_SECS,
        ensures
            final(breaker).wf(),
            stage_rank(final(self).stage) < stage_rank(old(self).stage),
            final(self).path == old(self).path,
            final(self).params == old(self).params,
            match outcome {
                Ok(_) => {
                    &&& a is Succeed
                    &&& final(self).stage is Finished
                    &&& final(breaker).failures() == 0
                    &&& final(breaker).open_until() == 0
                },
                Err(e) => match old(self).stage {
                    GetStage::First => if definitive_client_error(e@) {
                        &&& action_fail(a) == Some(e@)
                        &&& final(self).stage is Finished
                        &&& *final(breaker) == *old(breaker)
                    } else {
                        &&& a is RefreshClientId
                        &&& final(self).stage matches GetStage::Refresh { first } && first@ == e@
                        &&& *final(breaker) == *old(breaker)
                    },
                    GetStage::Retry { first } => {
                        &&& action_fail(a) == Some(first@ + "; retry: "@ + e@)
                        &&& final(self).stage is Finished
                        &&& (final(breaker).failures(), final(breaker).open_until())
                            == failure_step(old(breaker).failures(), old(breaker).open_until(), now)
                    },
                    _ => false,
                },
            },
    {
        match outcome {
            Ok(_) => {
                breaker.note_success();
                self.stage = GetStage::Finished;
                GetAction::Succeed
            },
            Err(e) => {
                let mut stage = GetStage::Finished;
                std::mem::swap(&mut stage, &mut self.stage);
                match stage {
                    GetStage::Retry { first } => {
                        breaker.note_failure(now);
                        let mut msg = concat(first.as_str(), "; retry: ");
                        msg = concat(msg.as_str(), e.as_str());
                        GetAction::Fail(msg)
                    },
                    _ => {
                        let client_error = match http_status_of(e.as_str()) {
                            Some(status) => 400 <= status && status < 500,
                            None => false,
                        };
                        if client_error {
                            GetAction::Fail(e)
                        } else {
                            self.stage = GetStage::Refresh { first: e };
                            GetAction::RefreshClientId
                        }
                    },
                }
            },
        }
    }

    /// The fresh client id arrived (or could not be had) at second `now`.
    pub fn on_refreshed(
        &mut self,
        breaker: &mut CircuitBreaker,
        id: Result<String, String>,
        now: u64,
    ) -> (a: GetAction)
        requires
            old(self).stage is Refresh,
            old(breaker).wf(),
            now <= u64::MAX - COOLDOWN_SECS,
        ensures
            final(breaker).wf(),
            stage_rank(final(self).stage) < stage_rank(old(self).stage),
            final(self).path == old(self).path,
            final(self).params == old(self).params,
            match id {
                Ok(cid) => {
                    &&& *final(breaker) == *old(breaker)
                    &&& final(self).stage matches GetStage::Retry { first } && old(
                        self,
                    ).stage matches GetStage::Refresh { first: f0 } && first@ == f0@
                    &&& a matches GetAction::Request(u) && u@ == sc_url_spec(
                        old(self).path@,
                        cid@,
                        params_view(old(self).params@),
                    )
                },
                Err(_) => {
                    &&& final(self).stage is Finished
                    &&& old(self).stage matches GetStage::Refresh { first: f0 } && action_fail(a)
                        == Some(f0@)
                    &&& (final(breaker).failures(), final(breaker).open_until()) == failure_step(
                        old(breaker).failures(),
                        old(breaker).open_until(),
                        now,
                    )
                },
            },
    {
        let mut stage = GetStage::Finished;
        std::mem::swap(&mut stage, &mut self.stage);
        let first = match stage {
            GetStage::Refresh { first } => first,
            _ => String::new(),
        };
        match id {
            Ok(cid) => {
                let url = build_sc_url(self.path.as_str(), cid.as_str(), self.params.as_slice());
                self.stage = GetStage::Retry { first };
                GetAction::Request(url)
            },
            Err(_) => {
                breaker.note_failure(now);
                GetAction::Fail(first)
            },
        }
    }
}

// ---------------------------------------------------------------------------
// Laws
// ---------------------------------------------------------------------------

/// How far a request is from its end: every step moves it closer.
pub open spec fn stage_rank(s: GetStage) -> nat {
    match s {
        GetStage::ClientId => 4,
        GetStage::First => 3,
        GetStage::Refresh { .. } => 2,
        GetStage::Retry { .. } => 1,
        GetStage::Finished => 0,
    }
}

/// Three failures in a row on a healthy circuit open it for `COOLDOWN_SECS`
/// from the third failure; the first two leave it closed.
pub proof fn law_three_failures_open_the_circuit(open_until: nat, t1: u64, t2: u64, t3: u64)
    requires
        t3 <= u64::MAX - COOLDOWN_SECS,
    ensures
        ({
            let b1 = failure_step(0, open_until, t1);
            let b2 = failure_step(b1.0, b1.1, t2);
            let b3 = failure_step(b2.0, b2.1, t3);
            &&& b1 == (1nat, open_until)
            &&& b2 == (2nat, open_until)
            &&& b3 == (0nat, (t3 + COOLDOWN_SECS) as nat)
        }),
{
}

/// An opened circuit refuses every request until `COOLDOWN_SECS` after the
/// failure that opened it, and none after.
pub proof fn law_cooldown_lasts_its_period(failures: nat, open_until: nat, now: u64, later: u64)
    requires
        failures + 1 >= FAIL_THRESHOLD,
        now <= u64::MAX - COOLDOWN_SECS,
    ensures
        (failure_step(failures, open_until, now).1 > later) <==> (later < now + COOLDOWN_SECS),
{
}

/// Every catalog request goes to SoundCloud's public API and nowhere else:
/// for an absolute path its URL starts with `https://api-v2.soundcloud.com/`,
/// so the host cannot be changed by what follows.
pub proof fn law_requests_reach_only_soundcloud(
    path: Seq<char>,
    client_id: Seq<char>,
    params: Seq<(Seq<char>, Seq<char>)>,
)
    requires
        path.len() > 0,
        path[0] == '/',
    ensures
        is_prefix(SC_API_V2@ + "/"@, sc_url_spec(path, client_id, params)),
{
    reveal_strlit("/");
    let u = sc_url_spec(path, client_id, params);
    let p = SC_API_V2@ + "/"@;
    assert(u.subrange(0, p.len() as int) =~= p);
}

} // verus!
