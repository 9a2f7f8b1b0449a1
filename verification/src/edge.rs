//! The transport ladder: for every origin host the client remembers whether
//! requests go out directly or through a relay, learns it from the outcome of
//! each hop, and plans the hops of a request from it.

use vstd::prelude::*;

use crate::outside::{opt_view, url_host, url_host_of};
use crate::text::{concat, contains, lower, occurs, occurs_at, str_eq, to_ascii_lowercase};

verus! {

/// How long a learned verdict stands before the direct route is tried again.
pub const REVALIDATE_MS: u64 = 600_000;

/// Direct failures in a row after which an origin falls back to the relay.
pub const DIRECT_FAIL_THRESHOLD: u8 = 2;

/// The latest time at which `now + REVALIDATE_MS` still fits.
pub const MAX_NOW: u64 = 18_446_744_073_708_951_615;

/// A rung of the transport ladder.
#[derive(Clone, Copy, PartialEq, Eq, Structural, Debug, Hash)]
pub enum Tier {
    Direct,
    Relay,
}

/// One attempt of a request: the URL to fetch, over which tier, and the origin
/// whose verdict its outcome teaches.
pub struct Hop {
    pub url: String,
    pub tier: Tier,
    pub origin: String,
}

/// A hop as plain values.
pub struct HopView {
    pub url: Seq<char>,
    pub tier: Tier,
    pub origin: Seq<char>,
}

impl View for Hop {
    type V = HopView;

    open spec fn view(&self) -> HopView {
        HopView { url: self.url@, tier: self.tier, origin: self.origin@ }
    }
}

/// What is known of one origin.
#[derive(Clone, Copy, PartialEq, Eq, Structural, Debug)]
pub struct OriginState {
    pub tier: Tier,
    /// Monotonic milliseconds after which the verdict is revalidated.
    pub revalidate_at: u64,
    pub direct_fails: u8,
}

/// Status and content type of a response: what the hop check reads of it.
pub struct ResponseHead {
    pub status: u16,
    pub content_type: String,
}

/// Everything the client learned about its origins.
pub struct EdgeState {
    origins: Vec<(String, OriginState)>,
}

/// What the frontend receives to plan its own hops.
pub struct EdgeConfig {
    pub relays: Vec<(String, Vec<String>)>,
    pub hints: Vec<(String, Tier)>,
    pub revalidate_ms: u64,
}

// ---------------------------------------------------------------------------
// The model
// ---------------------------------------------------------------------------

pub open spec fn map_get(m: Map<Seq<char>, OriginState>, k: Seq<char>) -> Option<OriginState> {
    if m.dom().contains(k) {
        Some(m[k])
    } else {
        None
    }
}

/// The list of origins and their verdicts, as plain values.
pub type Entries = Seq<(Seq<char>, OriginState)>;

pub open spec fn view_entries(v: Seq<(String, OriginState)>) -> Entries {
    v.map_values(|e: (String, OriginState)| (e.0@, e.1))
}

pub open spec fn keys_distinct(v: Entries) -> bool {
    forall|i: int, j: int| 0 <= i < j < v.len() ==> v[i].0 != v[j].0
}

/// The verdict map of a list of origins: later entries win.
pub open spec fn map_of(v: Entries) -> Map<Seq<char>, OriginState>
    decreases v.len(),
{
    if v.len() == 0 {
        Map::empty()
    } else {
        map_of(v.drop_last()).insert(v.last().0, v.last().1)
    }
}

impl EdgeState {
    /// The origins in the order they were first seen.
    pub closed spec fn entries(&self) -> Entries {
        view_entries(self.origins@)
    }

    /// No origin is listed twice.
    pub open spec fn wf(&self) -> bool {
        keys_distinct(self.entries())
    }
}

impl View for EdgeState {
    type V = Map<Seq<char>, OriginState>;

    open spec fn view(&self) -> Map<Seq<char>, OriginState> {
        map_of(self.entries())
    }
}

/// The verdict a success on `tier` records.
pub open spec fn fresh_state(tier: Tier, now: u64) -> OriginState {
    OriginState {
        tier,
        revalidate_at: (now + REVALIDATE_MS) as u64,
        direct_fails: if tier == Tier::Direct {
            0
        } else {
            DIRECT_FAIL_THRESHOLD
        },
    }
}

/// `n + 1`, saturating at the top of `u8`.
pub open spec fn saturating_inc(n: u8) -> u8 {
    if n == 255 {
        255
    } else {
        (n + 1) as u8
    }
}

/// The new verdicts after the outcome `ok` of a hop on `tier` to `origin` at
/// time `now`, and whether the verdicts on disk have to be rewritten.
pub open spec fn note_outcome(
    m: Map<Seq<char>, OriginState>,
    origin: Seq<char>,
    tier: Tier,
    ok: bool,
    now: u64,
) -> (Map<Seq<char>, OriginState>, bool) {
    if origin.len() == 0 {
        (m, false)
    } else if ok {
        let changed = !(m.dom().contains(origin) && m[origin].tier == tier);
        if !changed && tier != Tier::Direct {
            (m, false)
        } else {
            (m.insert(origin, fresh_state(tier, now)), changed)
        }
    } else if tier != Tier::Direct {
        (m, false)
    } else {
        let e = if m.dom().contains(origin) {
            m[origin]
        } else {
            OriginState { tier: Tier::Direct, revalidate_at: now, direct_fails: 0 }
        };
        let fails = saturating_inc(e.direct_fails);
        let flip = e.tier == Tier::Direct && fails >= DIRECT_FAIL_THRESHOLD;
        (
            m.insert(
                origin,
                OriginState {
                    tier: if flip {
                        Tier::Relay
                    } else {
                        e.tier
                    },
                    revalidate_at: (now + REVALIDATE_MS) as u64,
                    direct_fails: fails,
                },
            ),
            flip,
        )
    }
}

/// The host of `url`, lower-cased.
pub open spec fn host_of_spec(url: Seq<char>) -> Option<Seq<char>> {
    match url_host_of(url) {
        Some(h) => Some(lower(h)),
        None => None,
    }
}

/// The relay table: origin host and the label of its relay service.
pub open spec fn relay_table_spec() -> Seq<(Seq<char>, Seq<char>)> {
    seq![
        ("api.scnative.space"@, "api"@),
        ("api-star.scnative.space"@, "api-star"@),
        ("stream.scnative.space"@, "stream"@),
        ("stream-star.scnative.space"@, "stream-star"@),
        ("images.scnative.space"@, "images"@),
        ("storage.scnative.space"@, "storage"@),
        ("storage-star.scnative.space"@, "storage-star"@),
        ("s3.scnative.space"@, "s3"@),
        ("pay.scnative.space"@, "pay"@),
    ]
}

/// Origins that take over the verdict of another origin.
pub open spec fn inherit_table_spec() -> Seq<(Seq<char>, Seq<char>)> {
    seq![
        ("storage.scnative.space"@, "stream.scnative.space"@),
        ("storage-star.scnative.space"@, "stream-star.scnative.space"@),
    ]
}

/// The second component of the first entry of `t` whose first component is `k`.
pub open spec fn table_lookup(t: Seq<(Seq<char>, Seq<char>)>, k: Seq<char>) -> Option<Seq<char>>
    decreases t.len(),
{
    if t.len() == 0 {
        None
    } else if t[0].0 == k {
        Some(t[0].1)
    } else {
        table_lookup(t.drop_first(), k)
    }
}

pub open spec fn relay_label_spec(origin: Seq<char>) -> Option<Seq<char>> {
    table_lookup(relay_table_spec(), origin)
}

pub open spec fn inherit_source_spec(origin: Seq<char>) -> Option<Seq<char>> {
    table_lookup(inherit_table_spec(), origin)
}

/// The verdict that applies to `origin`: its own, else the one of the origin
/// it inherits from.
pub open spec fn resolved_spec(m: Map<Seq<char>, OriginState>, origin: Seq<char>) -> Option<
    OriginState,
> {
    if m.dom().contains(origin) {
        Some(m[origin])
    } else {
        match inherit_source_spec(origin) {
            Some(src) => map_get(m, src),
            None => None,
        }
    }
}

/// The tier a request to `url` currently goes over.
pub open spec fn current_tier_spec(m: Map<Seq<char>, OriginState>, url: Seq<char>) -> Tier {
    match host_of_spec(url) {
        None => Tier::Direct,
        Some(origin) => match resolved_spec(m, origin) {
            Some(s) => s.tier,
            None => Tier::Direct,
        },
    }
}

/// The order in which an audio request tries the tiers.
pub open spec fn audio_order_spec(current: Option<Tier>, revalidate: bool) -> (Tier, Tier) {
    if revalidate || current == Some(Tier::Direct) || current is None {
        (Tier::Direct, Tier::Relay)
    } else {
        (Tier::Relay, Tier::Direct)
    }
}

/// The one direct hop a request to `url` takes when no relay serves its host.
pub open spec fn direct_hop(url: Seq<char>) -> HopView {
    HopView {
        url,
        tier: Tier::Direct,
        origin: match host_of_spec(url) {
            Some(h) => h,
            None => Seq::empty(),
        },
    }
}

/// What `expand_upstreams` makes of one upstream.
pub open spec fn upstream_hop(u: Seq<char>) -> HopView {
    if u == "direct"@ {
        HopView { url: u, tier: Tier::Direct, origin: Seq::empty() }
    } else {
        direct_hop(u)
    }
}

pub open spec fn hops_view(v: Seq<Hop>) -> Seq<HopView> {
    v.map_values(|h: Hop| h@)
}

/// A gateway error page served instead of the origin's answer.
pub open spec fn infrastructure_error_spec(status: u16, content_type: Seq<char>) -> bool {
    502 <= status <= 504 && occurs("text/html"@, lower(content_type))
}

/// A relay that could not reach the origin.
pub open spec fn relay_error_spec(status: u16) -> bool {
    status == 421 || status == 502 || status == 503 || status == 504
}

/// The verdicts worth keeping across restarts: the origins not on the direct
/// route.
pub open spec fn persisted_spec(v: Entries) -> Seq<(Seq<char>, Tier)>
    decreases v.len(),
{
    if v.len() == 0 {
        Seq::empty()
    } else if v.last().1.tier != Tier::Direct {
        persisted_spec(v.drop_last()).push((v.last().0, v.last().1.tier))
    } else {
        persisted_spec(v.drop_last())
    }
}

/// The verdicts after loading `tiers` from disk at time `now`.
pub open spec fn load_spec(
    m: Map<Seq<char>, OriginState>,
    tiers: Seq<(Seq<char>, Tier)>,
    now: u64,
) -> Map<Seq<char>, OriginState>
    decreases tiers.len(),
{
    if tiers.len() == 0 {
        m
    } else {
        let prev = load_spec(m, tiers.drop_last(), now);
        let (host, tier) = tiers.last();
        if tier == Tier::Direct {
            prev
        } else {
            prev.insert(
                host,
                OriginState {
                    tier,
                    revalidate_at: (now + REVALIDATE_MS) as u64,
                    direct_fails: DIRECT_FAIL_THRESHOLD,
                },
            )
        }
    }
}

// ---------------------------------------------------------------------------
// Lemmas on the list of origins
// ---------------------------------------------------------------------------

proof fn lemma_map_of_dom(v: Entries, k: Seq<char>)
    ensures
        map_of(v).dom().contains(k) <==> exists|i: int| 0 <= i < v.len() && v[i].0 == k,
    decreases v.len(),
{
    if v.len() > 0 {
        lemma_map_of_dom(v.drop_last(), k);
        if map_of(v.drop_last()).dom().contains(k) {
            let i = choose|i: int| 0 <= i < v.drop_last().len() && v.drop_last()[i].0 == k;
            assert(v[i].0 == k);
        }
        if exists|i: int| 0 <= i < v.len() && v[i].0 == k {
            let i = choose|i: int| 0 <= i < v.len() && v[i].0 == k;
            if i < v.len() - 1 {
                assert(v.drop_last()[i].0 == k);
            }
        }
    }
}

proof fn lemma_map_of_index(v: Entries, i: int)
    requires
        keys_distinct(v),
        0 <= i < v.len(),
    ensures
        map_of(v).dom().contains(v[i].0),
        map_of(v)[v[i].0] == v[i].1,
    decreases v.len(),
{
    if i < v.len() - 1 {
        assert(v.drop_last()[i] == v[i]);
        lemma_map_of_index(v.drop_last(), i);
    }
}

proof fn lemma_map_of_update(v: Entries, i: int, s: OriginState)
    requires
        keys_distinct(v),
        0 <= i < v.len(),
    ensures
        keys_distinct(v.update(i, (v[i].0, s))),
        map_of(v.update(i, (v[i].0, s))) == map_of(v).insert(v[i].0, s),
    decreases v.len(),
{
    let w = v.update(i, (v[i].0, s));
    if i == v.len() - 1 {
        assert(w.drop_last() =~= v.drop_last());
        assert(map_of(w) =~= map_of(v).insert(v[i].0, s));
    } else {
        assert(w.drop_last() =~= v.drop_last().update(i, (v[i].0, s)));
        lemma_map_of_update(v.drop_last(), i, s);
        assert(map_of(w) =~= map_of(v).insert(v[i].0, s));
    }
}

proof fn lemma_push_distinct(v: Entries, e: (Seq<char>, OriginState))
    requires
        keys_distinct(v),
        forall|j: int| 0 <= j < v.len() ==> v[j].0 != e.0,
    ensures
        keys_distinct(v.push(e)),
        map_of(v.push(e)) == map_of(v).insert(e.0, e.1),
{
    assert(v.push(e).drop_last() =~= v);
}

// ---------------------------------------------------------------------------
// Tables
// ---------------------------------------------------------------------------

/// The relay table: origin host and relay service label.
pub fn relay_table() -> (t: Vec<(&'static str, &'static str)>)
    ensures
        t@.len() == relay_table_spec().len(),
        forall|i: int|
            0 <= i < t@.len() ==> (#[trigger] t@[i]).0@ == relay_table_spec()[i].0 && t@[i].1@
                == relay_table_spec()[i].1,
{
    let mut t: Vec<(&'static str, &'static str)> = Vec::new();
    t.push(("api.scnative.space", "api"));
    t.push(("api-star.scnative.space", "api-star"));
    t.push(("stream.scnative.space", "stream"));
    t.push(("stream-star.scnative.space", "stream-star"));
    t.push(("images.scnative.space", "images"));
    t.push(("storage.scnative.space", "storage"));
    t.push(("storage-star.scnative.space", "storage-star"));
    t.push(("s3.scnative.space", "s3"));
    t.push(("pay.scnative.space", "pay"));
    t
}

/// Origins that take over the verdict of another origin: (origin, source).
pub fn inherit_table() -> (t: Vec<(&'static str, &'static str)>)
    ensures
        t@.len() == inherit_table_spec().len(),
        forall|i: int|
            0 <= i < t@.len() ==> (#[trigger] t@[i]).0@ == inherit_table_spec()[i].0 && t@[i].1@
                == inherit_table_spec()[i].1,
{
    let mut t: Vec<(&'static str, &'static str)> = Vec::new();
    t.push(("storage.scnative.space", "stream.scnative.space"));
    t.push(("storage-star.scnative.space", "stream-star.scnative.space"));
    t
}

fn lookup_in(t: &Vec<(&'static str, &'static str)>, key: &str, Ghost(spec_t): Ghost<
    Seq<(Seq<char>, Seq<char>)>,
>) -> (r: Option<&'static str>)
    requires
        t@.len() == spec_t.len(),
        forall|i: int|
            0 <= i < t@.len() ==> (#[trigger] t@[i]).0@ == spec_t[i].0 && t@[i].1@ == spec_t[i].1,
    ensures
        match r {
            Some(x) => table_lookup(spec_t, key@) == Some(x@),
            None => table_lookup(spec_t, key@) is None,
        },
{
    assert(spec_t.subrange(0, spec_t.len() as int) =~= spec_t);
    let mut i: usize = 0;
    while i < t.len()
        invariant
            i <= t@.len(),
            t@.len() == spec_t.len(),
            forall|j: int|
                0 <= j < t@.len() ==> (#[trigger] t@[j]).0@ == spec_t[j].0 && t@[j].1@
                    == spec_t[j].1,
            table_lookup(spec_t, key@) == table_lookup(spec_t.subrange(i as int, spec_t.len() as int), key@),
        decreases t.len() - i,
    {
        let ghost rest = spec_t.subrange(i as int, spec_t.len() as int);
        assert(rest[0] == spec_t[i as int]);
        assert(rest.drop_first() =~= spec_t.subrange(i + 1, spec_t.len() as int));
        if str_eq(t[i].0, key) {
            return Some(t[i].1);
        }
        i = i + 1;
    }
    None
}

/// The relay service label of an origin host.
pub fn relay_label(origin: &str) -> (r: Option<&'static str>)
    ensures
        match r {
            Some(x) => relay_label_spec(origin@) == Some(x@),
            None => relay_label_spec(origin@) is None,
        },
{
    let t = relay_table();
    lookup_in(&t, origin, Ghost(relay_table_spec()))
}

/// The origin whose verdict `origin` takes over, if any.
pub fn inherit_source(origin: &str) -> (r: Option<&'static str>)
    ensures
        match r {
            Some(x) => inherit_source_spec(origin@) == Some(x@),
            None => inherit_source_spec(origin@) is None,
        },
{
    let t = inherit_table();
    lookup_in(&t, origin, Ghost(inherit_table_spec()))
}

/// The DNS zone under which relay hosts live.
pub open spec fn relay_zone_spec() -> Seq<char> {
    "relay.scnative.space"@
}

/// The relay hosts of `origin` over the relay nodes `pool`:
/// `<label>.<node>.relay.scnative.space` for each node, the service's own
/// `<label>.relay.scnative.space` when no node is known, and none for an
/// origin without a relay label.
pub open spec fn relay_hosts_over_spec(origin: Seq<char>, pool: Seq<Seq<char>>) -> Seq<Seq<char>> {
    match relay_label_spec(origin) {
        None => Seq::empty(),
        Some(label) => if pool.len() == 0 {
            seq![label + "."@ + relay_zone_spec()]
        } else {
            pool.map_values(|node: Seq<char>| label + "."@ + node + "."@ + relay_zone_spec())
        },
    }
}

pub open spec fn strings_view(v: Seq<String>) -> Seq<Seq<char>> {
    v.map_values(|s: String| s@)
}

/// The relay hosts of `origin` over the relay nodes `pool`.
pub fn relay_hosts_over(origin: &str, pool: &[String]) -> (r: Vec<String>)
    ensures
        strings_view(r@) == relay_hosts_over_spec(origin@, strings_view(pool@)),
{
    let label = match relay_label(origin) {
        Some(l) => l,
        None => {
            let r: Vec<String> = Vec::new();
            assert(strings_view(r@) =~= relay_hosts_over_spec(origin@, strings_view(pool@)));
            return r;
        },
    };
    let mut out: Vec<String> = Vec::new();
    if pool.len() == 0 {
        let a = concat(label, ".");
        out.push(concat(a.as_str(), "relay.scnative.space"));
        assert(strings_view(out@) =~= relay_hosts_over_spec(origin@, strings_view(pool@)));
        return out;
    }
    for i in 0..pool.len()
        invariant
            relay_label_spec(origin@) == Some(label@),
            out@.len() == i,
            forall|j: int|
                0 <= j < i ==> (#[trigger] out@[j])@ == label@ + "."@ + pool@[j]@ + "."@
                    + relay_zone_spec(),
    {
        let a = concat(label, ".");
        let b = concat(a.as_str(), pool[i].as_str());
        let c = concat(b.as_str(), ".");
        let host = concat(c.as_str(), "relay.scnative.space");
        out.push(host);
    }
    assert(strings_view(out@) =~= relay_hosts_over_spec(origin@, strings_view(pool@)));
    out
}

/// The relay nodes the client knows of. Nothing fills this pool in the
/// SoundCloud-only build, so it is always empty.
pub fn relay_pool() -> (r: Vec<String>)
    ensures
        r@.len() == 0,
{
    Vec::new()
}

/// The relay hosts a request to `origin` may take: none, as every request of
/// the SoundCloud-only build goes straight to its origin.
pub fn relay_hosts(origin: &str) -> (r: Vec<String>)
    ensures
        r@.len() == 0,
{
    Vec::new()
}

/// The lower-cased host of `url`, when it parses and has one.
pub fn host_of(url: &str) -> (r: Option<String>)
    ensures
        opt_view(r) == host_of_spec(url@),
{
    match url_host(url) {
        Some(h) => Some(to_ascii_lowercase(h.as_str())),
        None => None,
    }
}

/// A gateway error page (502 to 504 with an HTML body) in place of the
/// origin's answer.
pub fn direct_infrastructure_headers(status: u16, content_type: &str) -> (r: bool)
    ensures
        r == infrastructure_error_spec(status, content_type@),
{
    if !(502 <= status && status <= 504) {
        return false;
    }
    let lowered = to_ascii_lowercase(content_type);
    contains(lowered.as_str(), "text/html")
}

/// The order in which an audio request tries the tiers: direct first when the
/// origin is unknown, on the direct route, or due for revalidation; else the
/// sticky relay first with direct as the backup.
pub fn audio_tier_order(current: Option<Tier>, revalidate: bool) -> (r: [Tier; 2])
    ensures
        (r[0], r[1]) == audio_order_spec(current, revalidate),
{
    let direct_first = match current {
        None => true,
        Some(Tier::Direct) => true,
        Some(Tier::Relay) => false,
    };
    if revalidate || direct_first {
        [Tier::Direct, Tier::Relay]
    } else {
        [Tier::Relay, Tier::Direct]
    }
}

impl Hop {
    /// The tier's name as the frontend spells it.
    pub fn tier_label(&self) -> (r: &'static str)
        ensures
            r@ == (if self.tier == Tier::Direct {
                "direct"@
            } else {
                "relay"@
            }),
    {
        match self.tier {
            Tier::Direct => "direct",
            Tier::Relay => "relay",
        }
    }

    /// Records the outcome of this hop; `true` when the verdicts on disk have
    /// to be rewritten.
    pub fn note(&self, state: &mut EdgeState, ok: bool, now: u64) -> (persist: bool)
        requires
            old(state).wf(),
            now <= MAX_NOW,
        ensures
            final(state).wf(),
            (final(state)@, persist) == note_outcome(old(state)@, self.origin@, self.tier, ok, now),
    {
        note(state, self.origin.as_str(), self.tier, ok, now)
    }
}

impl EdgeState {
    /// No origin known yet.
    pub fn new() -> (s: Self)
        ensures
            s.wf(),
            s@ == Map::<Seq<char>, OriginState>::empty(),
    {
        EdgeState { origins: Vec::new() }
    }

    fn find(&self, origin: &str) -> (r: Option<usize>)
        requires
            self.wf(),
        ensures
            match r {
                Some(i) => i < self.origins@.len() && self.origins@[i as int].0@ == origin@
                    && self@.dom().contains(origin@) && self@[origin@] == self.origins@[i as int].1,
                None => !self@.dom().contains(origin@),
            },
    {
        let ghost e = self.entries();
        assert(e.len() == self.origins@.len());
        let mut i: usize = 0;
        while i < self.origins.len()
            invariant
                e == self.entries(),
                e == view_entries(self.origins@),
                keys_distinct(e),
                i <= self.origins@.len(),
                forall|j: int| 0 <= j < i ==> e[j].0 != origin@,
            decreases self.origins.len() - i,
        {
            if str_eq(self.origins[i].0.as_str(), origin) {
                proof {
                    lemma_map_of_index(e, i as int);
                }
                return Some(i);
            }
            i = i + 1;
        }
        proof {
            lemma_map_of_dom(e, origin@);
        }
        None
    }

    /// The verdict recorded for `origin` itself.
    pub fn get(&self, origin: &str) -> (r: Option<OriginState>)
        requires
            self.wf(),
        ensures
            r == map_get(self@, origin@),
    {
        match self.find(origin) {
            Some(i) => Some(self.origins[i].1),
            None => None,
        }
    }

    fn set(&mut self, origin: &str, st: OriginState)
        requires
            old(self).wf(),
        ensures
            final(self).wf(),
            final(self)@ == old(self)@.insert(origin@, st),
    {
        match self.find(origin) {
            Some(i) => {
                let ghost v = self.entries();
                let key = self.origins[i].0.clone();
                self.origins.set(i, (key, st));
                proof {
                    assert(self.entries() =~= v.update(i as int, (v[i as int].0, st)));
                    lemma_map_of_update(v, i as int, st);
                }
            },
            None => {
                let ghost v = self.entries();
                proof {
                    lemma_map_of_dom(v, origin@);
                }
                let key = origin.to_owned();
                self.origins.push((key, st));
                proof {
                    assert(self.entries() =~= v.push((origin@, st)));
                    lemma_push_distinct(v, (origin@, st));
                }
            },
        }
    }

    /// The verdict that applies to `origin`: its own, else the one of the
    /// origin it inherits from.
    pub fn resolved_state(&self, origin: &str) -> (r: Option<OriginState>)
        requires
            self.wf(),
        ensures
            r == resolved_spec(self@, origin@),
    {
        if let Some(s) = self.get(origin) {
            return Some(s);
        }
        match inherit_source(origin) {
            Some(src) => self.get(src),
            None => None,
        }
    }

    /// The verdicts to write to disk: the origins not on the direct route.
    pub fn persisted_tiers(&self) -> (r: Vec<(String, Tier)>)
        ensures
            r@.map_values(|e: (String, Tier)| (e.0@, e.1)) == persisted_spec(self.entries()),
    {
        let ghost e = self.entries();
        let mut r: Vec<(String, Tier)> = Vec::new();
        for i in 0..self.origins.len()
            invariant
                e == self.entries(),
                e == view_entries(self.origins@),
                r@.map_values(|x: (String, Tier)| (x.0@, x.1)) =~= persisted_spec(
                    e.subrange(0, i as int),
                ),
        {
            proof {
                assert(e.subrange(0, i + 1).drop_last() =~= e.subrange(0, i as int));
            }
            if self.origins[i].1.tier != Tier::Direct {
                r.push((self.origins[i].0.clone(), self.origins[i].1.tier));
            }
            assert(r@.map_values(|x: (String, Tier)| (x.0@, x.1)) =~= persisted_spec(
                e.subrange(0, i + 1),
            ));
        }
        assert(e.subrange(0, e.len() as int) =~= e);
        r
    }

    /// Takes over the verdicts read from disk at startup: every origin not on
    /// the direct route is put on its recorded tier until `now + REVALIDATE_MS`.
    pub fn load_persisted(&mut self, tiers: &[(String, Tier)], now: u64)
        requires
            old(self).wf(),
            now <= MAX_NOW,
        ensures
            final(self).wf(),
            final(self)@ == load_spec(
                old(self)@,
                tiers@.map_values(|e: (String, Tier)| (e.0@, e.1)),
                now,
            ),
    {
        let ghost start = self@;
        let ghost tv = tiers@.map_values(|e: (String, Tier)| (e.0@, e.1));
        for i in 0..tiers.len()
            invariant
                self.wf(),
                now <= MAX_NOW,
                tv == tiers@.map_values(|e: (String, Tier)| (e.0@, e.1)),
                self@ == load_spec(start, tv.subrange(0, i as int), now),
        {
            proof {
                assert(tv.subrange(0, i + 1).drop_last() =~= tv.subrange(0, i as int));
            }
            let tier = tiers[i].1;
            if tier != Tier::Direct {
                let st = OriginState {
                    tier,
                    revalidate_at: now + REVALIDATE_MS,
                    direct_fails: DIRECT_FAIL_THRESHOLD,
                };
                self.set(tiers[i].0.as_str(), st);
            }
        }
        assert(tv.subrange(0, tiers@.len() as int) =~= tv);
    }

}

/// Records the outcome `ok` of a hop on `tier` to `origin`; `true` when
/// the verdicts on disk have to be rewritten.
pub fn note(state: &mut EdgeState, origin: &str, tier: Tier, ok: bool, now: u64) -> (persist: bool)
    requires
        old(state).wf(),
        now <= MAX_NOW,
    ensures
        final(state).wf(),
        (final(state)@, persist) == note_outcome(old(state)@, origin@, tier, ok, now),
{
    if origin.is_empty() {
        return false;
    }
    if ok {
        let prev = state.get(origin);
        let changed = match prev {
            Some(s) => s.tier != tier,
            None => true,
        };
        if !changed && tier != Tier::Direct {
            return false;
        }
        let st = OriginState {
            tier,
            revalidate_at: now + REVALIDATE_MS,
            direct_fails: if tier == Tier::Direct {
                0
            } else {
                DIRECT_FAIL_THRESHOLD
            },
        };
        state.set(origin, st);
        return changed;
    }
    if tier != Tier::Direct {
        return false;
    }
    let entry = match state.get(origin) {
        Some(s) => s,
        None => OriginState { tier: Tier::Direct, revalidate_at: now, direct_fails: 0 },
    };
    let fails = entry.direct_fails.saturating_add(1);
    let flip = entry.tier == Tier::Direct && fails >= DIRECT_FAIL_THRESHOLD;
    let st = OriginState {
        tier: if flip {
            Tier::Relay
        } else {
            entry.tier
        },
        revalidate_at: now + REVALIDATE_MS,
        direct_fails: fails,
    };
    state.set(origin, st);
    flip
}


/// The hops of a request to `url`: none when no relay serves its host,
/// which in the SoundCloud-only build is every host, so the request goes
/// out as it is.
pub fn plan(state: &EdgeState, url: &str, now: u64) -> (hops: Vec<Hop>)
    requires
        state.wf(),
    ensures
        hops@.len() == 0,
{
    Vec::new()
}

/// The hops of an audio request to `url`: one direct hop when no relay
/// serves its host (every host in the SoundCloud-only build).
pub fn audio_plan(state: &EdgeState, url: &str, now: u64) -> (hops: Vec<Hop>)
    requires
        state.wf(),
    ensures
        hops@.len() == 1,
        hops@[0]@ == direct_hop(url@),
{
    let origin = match host_of(url) {
        Some(o) => o,
        None => String::new(),
    };
    let mut v: Vec<Hop> = Vec::new();
    v.push(Hop { url: url.to_owned(), tier: Tier::Direct, origin });
    v
}


/// The tier a request to `url` currently goes over.
pub fn current_tier(state: &EdgeState, url: &str) -> (t: Tier)
    requires
        state.wf(),
    ensures
        t == current_tier_spec(state@, url@),
{
    let origin = match host_of(url) {
        Some(o) => o,
        None => return Tier::Direct,
    };
    match state.resolved_state(origin.as_str()) {
        Some(s) => s.tier,
        None => Tier::Direct,
    }
}


/// Requests to `url` currently go out directly.
pub fn is_direct(state: &EdgeState, url: &str) -> (r: bool)
    requires
        state.wf(),
    ensures
        r == (current_tier_spec(state@, url@) == Tier::Direct),
{
    current_tier(state, url) == Tier::Direct
}


/// The hops for a list of upstreams: `direct` stands for itself, any
/// other upstream gets its planned hops, or one direct hop when none is
/// planned (every upstream in the SoundCloud-only build).
pub fn expand_upstreams(state: &EdgeState, upstreams: &[String], now: u64) -> (out: Vec<Hop>)
    requires
        state.wf(),
    ensures
        hops_view(out@) == strings_view(upstreams@).map_values(|u: Seq<char>| upstream_hop(u)),
{
    let mut out: Vec<Hop> = Vec::new();
    for i in 0..upstreams.len()
        invariant
            state.wf(),
            out@.len() == i,
            forall|j: int| 0 <= j < i ==> (#[trigger] out@[j])@ == upstream_hop(upstreams@[j]@),
    {
        let u = &upstreams[i];
        if str_eq(u.as_str(), "direct") {
            out.push(Hop { url: u.clone(), tier: Tier::Direct, origin: String::new() });
        } else {
            let hops = plan(state, u.as_str(), now);
            if hops.len() == 0 {
                let origin = match host_of(u.as_str()) {
                    Some(h) => h,
                    None => String::new(),
                };
                out.push(Hop { url: u.clone(), tier: Tier::Direct, origin });
            } else {
                let mut hops = hops;
                out.append(&mut hops);
            }
        }
    }
    assert(hops_view(out@) =~= strings_view(upstreams@).map_values(
        |u: Seq<char>| upstream_hop(u),
    ));
    out
}


/// Checks a response of `hop`: a gateway error page on a direct hop, or a
/// relay that could not reach the origin, fails the hop and is recorded
/// as a failure. Returns whether the hop succeeded, and whether the
/// verdicts on disk have to be rewritten.
pub fn hop_ok(state: &mut EdgeState, hop: &Hop, resp: &ResponseHead, now: u64) -> (r: (bool, bool))
    requires
        old(state).wf(),
        now <= MAX_NOW,
    ensures
        final(state).wf(),
        r.0 == !(if hop.tier == Tier::Direct {
            infrastructure_error_spec(resp.status, resp.content_type@)
        } else {
            relay_error_spec(resp.status)
        }),
        final(state)@ == (if r.0 {
            old(state)@
        } else {
            note_outcome(old(state)@, hop.origin@, hop.tier, false, now).0
        }),
        r.1 == (!r.0 && note_outcome(old(state)@, hop.origin@, hop.tier, false, now).1),
{
    let status = resp.status;
    let bad = match hop.tier {
        Tier::Direct => direct_infrastructure_headers(status, resp.content_type.as_str()),
        Tier::Relay => status == 421 || status == 502 || status == 503 || status == 504,
    };
    if bad {
        let persist = hop.note(state, false, now);
        (false, persist)
    } else {
        (true, false)
    }
}

/// The configuration handed to the frontend: every routed origin with its
/// relay hosts over the relay pool (none while the pool has no node, so the
/// frontend plans direct hops only), the current verdicts, and the
/// revalidation period.
pub fn edge_config(state: &EdgeState) -> (c: EdgeConfig)
    requires
        state.wf(),
    ensures
        c.revalidate_ms == REVALIDATE_MS,
        forall|i: int|
            0 <= i < c.hints@.len() ==> state@.dom().contains((#[trigger] c.hints@[i]).0@)
                && state@[c.hints@[i].0@].tier == c.hints@[i].1,
        forall|k: Seq<char>|
            #![trigger state@.dom().contains(k)]
            state@.dom().contains(k) ==> exists|i: int|
                0 <= i < c.hints@.len() && (#[trigger] c.hints@[i]).0@ == k,
        c.relays@.len() == relay_table_spec().len(),
        forall|i: int|
            0 <= i < c.relays@.len() ==> (#[trigger] c.relays@[i]).0@ == relay_table_spec()[i].0
                && c.relays@[i].1@.len() == 0,
        c.hints@.map_values(|e: (String, Tier)| (e.0@, e.1)) == state.entries().map_values(
            |e: (Seq<char>, OriginState)| (e.0, e.1.tier),
        ),
{
    let pool = relay_pool();
    let table = relay_table();
    let mut relays: Vec<(String, Vec<String>)> = Vec::new();
    for i in 0..table.len()
        invariant
            pool@.len() == 0,
            table@.len() == relay_table_spec().len(),
            forall|j: int|
                0 <= j < table@.len() ==> (#[trigger] table@[j]).0@ == relay_table_spec()[j].0
                    && table@[j].1@ == relay_table_spec()[j].1,
            relays@.len() == i,
            forall|j: int|
                0 <= j < i ==> (#[trigger] relays@[j]).0@ == relay_table_spec()[j].0
                    && relays@[j].1@.len() == 0,
    {
        let (o, _) = table[i];
        let hosts = if pool.len() == 0 {
            Vec::new()
        } else {
            relay_hosts_over(o, pool.as_slice())
        };
        relays.push((o.to_owned(), hosts));
    }
    let ghost e = state.entries();
    let mut hints: Vec<(String, Tier)> = Vec::new();
    for i in 0..state.origins.len()
        invariant
            e == state.entries(),
            e == view_entries(state.origins@),
            hints@.len() == i,
            forall|j: int|
                0 <= j < i ==> (#[trigger] hints@[j]).0@ == e[j].0 && hints@[j].1 == e[j].1.tier,
    {
        assert(e[i as int] == (state.origins@[i as int].0@, state.origins@[i as int].1));
        hints.push((state.origins[i].0.clone(), state.origins[i].1.tier));
    }
    assert forall|i: int| 0 <= i < hints@.len() implies state@.dom().contains(
        (#[trigger] hints@[i]).0@,
    ) && state@[hints@[i].0@].tier == hints@[i].1 by {
        lemma_map_of_index(e, i);
    }
    assert forall|k: Seq<char>| #![trigger state@.dom().contains(k)] state@.dom().contains(k) implies exists|i: int|
        0 <= i < hints@.len() && (#[trigger] hints@[i]).0@ == k by {
        lemma_map_of_dom(e, k);
        let i = choose|i: int| 0 <= i < e.len() && e[i].0 == k;
        assert(hints@[i].0@ == k);
    }
    assert(hints@.map_values(|x: (String, Tier)| (x.0@, x.1)) =~= e.map_values(
        |x: (Seq<char>, OriginState)| (x.0, x.1.tier),
    ));
    EdgeConfig { relays, hints, revalidate_ms: REVALIDATE_MS }
}


// ---------------------------------------------------------------------------
// Laws of the transport ladder
// ---------------------------------------------------------------------------

/// An outcome reported without an origin changes nothing and writes nothing.
pub proof fn law_empty_origin_is_ignored(
    m: Map<Seq<char>, OriginState>,
    tier: Tier,
    ok: bool,
    now: u64,
)
    ensures
        note_outcome(m, Seq::empty(), tier, ok, now) == (m, false),
{
}

/// A failed relay hop teaches nothing: only direct failures move an origin
/// down the ladder.
pub proof fn law_relay_failure_changes_nothing(
    m: Map<Seq<char>, OriginState>,
    origin: Seq<char>,
    now: u64,
)
    ensures
        note_outcome(m, origin, Tier::Relay, false, now) == (m, false),
{
}

/// Recording an outcome for one origin leaves every other origin's verdict
/// as it was.
pub proof fn law_note_touches_only_its_origin(
    m: Map<Seq<char>, OriginState>,
    origin: Seq<char>,
    tier: Tier,
    ok: bool,
    now: u64,
    other: Seq<char>,
)
    requires
        other != origin,
    ensures
        map_get(note_outcome(m, origin, tier, ok, now).0, other) == map_get(m, other),
{
}

/// A success on a tier puts the origin on that tier until `now + REVALIDATE_MS`;
/// a direct success also forgets earlier direct failures.
pub proof fn law_success_sets_tier(
    m: Map<Seq<char>, OriginState>,
    origin: Seq<char>,
    tier: Tier,
    now: u64,
)
    requires
        origin.len() > 0,
    ensures
        ({
            let m2 = note_outcome(m, origin, tier, true, now).0;
            &&& m2.dom().contains(origin)
            &&& m2[origin].tier == tier
            &&& tier == Tier::Direct ==> m2[origin].direct_fails == 0
            &&& tier == Tier::Direct && now <= MAX_NOW ==> m2[origin].revalidate_at == now
                + REVALIDATE_MS
            &&& forall|u: Seq<char>|
                #![trigger host_of_spec(u)]
                host_of_spec(u) == Some(origin) ==> current_tier_spec(m2, u) == tier
        }),
{
}

/// Two direct failures in a row move an origin that was on the direct route
/// with no failure (or unknown) over to the relay, and only the second one
/// asks for the verdicts to be written.
pub proof fn law_two_direct_failures_fall_back_to_relay(
    m: Map<Seq<char>, OriginState>,
    origin: Seq<char>,
    now1: u64,
    now2: u64,
)
    requires
        origin.len() > 0,
        !m.dom().contains(origin) || (m[origin].tier == Tier::Direct && m[origin].direct_fails
            == 0),
    ensures
        ({
            let (m1, p1) = note_outcome(m, origin, Tier::Direct, false, now1);
            let (m2, p2) = note_outcome(m1, origin, Tier::Direct, false, now2);
            &&& m1[origin].tier == Tier::Direct
            &&& !p1
            &&& m2[origin].tier == Tier::Relay
            &&& p2
        }),
{
}

/// Once an origin is on the relay, further direct failures keep it there.
pub proof fn law_relay_verdict_is_sticky(
    m: Map<Seq<char>, OriginState>,
    origin: Seq<char>,
    ok: bool,
    tier: Tier,
    now: u64,
)
    requires
        m.dom().contains(origin),
        m[origin].tier == Tier::Relay,
        !(ok && tier == Tier::Direct),
    ensures
        ({
            let m2 = note_outcome(m, origin, tier, ok, now).0;
            m2.dom().contains(origin) && m2[origin].tier == Tier::Relay
        }),
{
}

/// Audio always keeps both tiers: the preferred one first, the other one as
/// the backup.
pub proof fn law_audio_order_keeps_both_tiers(current: Option<Tier>, revalidate: bool)
    ensures
        audio_order_spec(current, revalidate).0 != audio_order_spec(current, revalidate).1,
        (audio_order_spec(current, revalidate).0 == Tier::Relay) <==> (!revalidate && current
            == Some(Tier::Relay)),
{
    match current {
        Some(Tier::Direct) => {},
        Some(Tier::Relay) => {},
        None => {},
    }
}

/// A storage origin without a verdict of its own follows the verdict of the
/// stream origin it inherits from.
pub proof fn law_storage_inherits_stream(m: Map<Seq<char>, OriginState>)
    requires
        !m.dom().contains("storage.scnative.space"@),
    ensures
        resolved_spec(m, "storage.scnative.space"@) == map_get(m, "stream.scnative.space"@),
        forall|u: Seq<char>|
            #![trigger host_of_spec(u)]
            host_of_spec(u) == Some("storage.scnative.space"@) ==> current_tier_spec(m, u) == (
            match map_get(m, "stream.scnative.space"@) {
                Some(s) => s.tier,
                None => Tier::Direct,
            }),
{
    reveal_strlit("storage.scnative.space");
    reveal_strlit("storage-star.scnative.space");
    reveal_strlit("stream.scnative.space");
    assert(inherit_table_spec()[0].0 == "storage.scnative.space"@);
    assert(inherit_source_spec("storage.scnative.space"@) == Some("stream.scnative.space"@));
}

proof fn lemma_table_lookup_row(t: Seq<(Seq<char>, Seq<char>)>, k: Seq<char>)
    ensures
        table_lookup(t, k) matches Some(v) ==> exists|i: int|
            0 <= i < t.len() && t[i].0 == k && t[i].1 == v,
    decreases t.len(),
{
    if t.len() > 0 && t[0].0 != k {
        lemma_table_lookup_row(t.drop_first(), k);
        if let Some(v) = table_lookup(t, k) {
            let i = choose|i: int|
                0 <= i < t.drop_first().len() && t.drop_first()[i].0 == k && t.drop_first()[i].1
                    == v;
            assert(t[i + 1] == t.drop_first()[i]);
        }
    } else if t.len() > 0 {
        assert(t[0].0 == k);
    }
}

/// `c` does not occur in `s`.
pub open spec fn lacks(s: Seq<char>, c: char) -> bool {
    forall|j: int| 0 <= j < s.len() ==> s[j] != c
}

proof fn lemma_lacks_no_occurs(s: Seq<char>, needle: Seq<char>, j: int)
    requires
        0 <= j < needle.len(),
        lacks(s, needle[j]),
    ensures
        !occurs(needle, s),
{
    if occurs(needle, s) {
        let i = choose|i: int| occurs_at(needle, s, i);
        assert(s.subrange(i, i + needle.len())[j] == s[i + j]);
    }
}

/// No routed origin is a legacy internal host and every relay label is a
/// bare service name: a routed origin never holds `scdinternal`, and its
/// label never holds a `.`.
pub proof fn law_relay_table_names_current_bare_services(origin: Seq<char>)
    ensures
        relay_label_spec(origin) matches Some(label) ==> !occurs("scdinternal"@, origin) && lacks(
            label,
            '.',
        ),
{
    reveal_strlit("scdinternal");
    reveal_strlit("api.scnative.space");
    reveal_strlit("api");
    reveal_strlit("api-star.scnative.space");
    reveal_strlit("api-star");
    reveal_strlit("stream.scnative.space");
    reveal_strlit("stream");
    reveal_strlit("stream-star.scnative.space");
    reveal_strlit("stream-star");
    reveal_strlit("images.scnative.space");
    reveal_strlit("images");
    reveal_strlit("storage.scnative.space");
    reveal_strlit("storage");
    reveal_strlit("storage-star.scnative.space");
    reveal_strlit("storage-star");
    reveal_strlit("s3.scnative.space");
    reveal_strlit("s3");
    reveal_strlit("pay.scnative.space");
    reveal_strlit("pay");
    let t = relay_table_spec();
    assert(lacks(t[0].0, 'd') && lacks(t[0].1, '.'));
    assert(lacks(t[1].0, 'd') && lacks(t[1].1, '.'));
    assert(lacks(t[2].0, 'd') && lacks(t[2].1, '.'));
    assert(lacks(t[3].0, 'd') && lacks(t[3].1, '.'));
    assert(lacks(t[4].0, 'd') && lacks(t[4].1, '.'));
    assert(lacks(t[5].0, 'd') && lacks(t[5].1, '.'));
    assert(lacks(t[6].0, 'd') && lacks(t[6].1, '.'));
    assert(lacks(t[7].0, 'd') && lacks(t[7].1, '.'));
    assert(lacks(t[8].0, 'd') && lacks(t[8].1, '.'));
    lemma_table_lookup_row(t, origin);
    if let Some(label) = relay_label_spec(origin) {
        let i = choose|i: int| 0 <= i < t.len() && t[i].0 == origin && t[i].1 == label;
        assert(lacks(origin, 'd') && lacks(label, '.'));
        assert("scdinternal"@[2] == 'd');
        lemma_lacks_no_occurs(origin, "scdinternal"@, 2);
    }
}

/// Host `h` is saved on the relay somewhere in `tiers`.
pub open spec fn saved_on_relay(tiers: Seq<(Seq<char>, Tier)>, h: Seq<char>) -> bool {
    exists|i: int| 0 <= i < tiers.len() && #[trigger] tiers[i] == (h, Tier::Relay)
}

/// Loading saved verdicts puts every host saved on the relay on the relay,
/// so that requests to it go over the relay, and leaves every other host as
/// it was: a direct entry changes nothing, and nor does a file that held no
/// verdicts.
pub proof fn law_load_restores_relay_entries(
    m: Map<Seq<char>, OriginState>,
    tiers: Seq<(Seq<char>, Tier)>,
    now: u64,
    h: Seq<char>,
)
    ensures
        saved_on_relay(tiers, h) ==> {
            &&& load_spec(m, tiers, now).dom().contains(h)
            &&& load_spec(m, tiers, now)[h].tier == Tier::Relay
            &&& forall|u: Seq<char>|
                #![trigger host_of_spec(u)]
                host_of_spec(u) == Some(h) ==> current_tier_spec(load_spec(m, tiers, now), u)
                    == Tier::Relay
        },
        !saved_on_relay(tiers, h) ==> map_get(load_spec(m, tiers, now), h) == map_get(m, h),
    decreases tiers.len(),
{
    if tiers.len() > 0 {
        let d = tiers.drop_last();
        law_load_restores_relay_entries(m, d, now, h);
        if saved_on_relay(d, h) {
            let i = choose|i: int| 0 <= i < d.len() && #[trigger] d[i] == (h, Tier::Relay);
            assert(tiers[i] == d[i]);
        }
        if saved_on_relay(tiers, h) && !saved_on_relay(d, h) {
            let i = choose|i: int| 0 <= i < tiers.len() && #[trigger] tiers[i] == (h, Tier::Relay);
            if i < tiers.len() - 1 {
                assert(d[i] == tiers[i]);
            }
            assert(tiers.last() == (h, Tier::Relay));
        }
        if !saved_on_relay(tiers, h) {
            assert(!saved_on_relay(d, h)) by {
                if saved_on_relay(d, h) {
                    let i = choose|i: int| 0 <= i < d.len() && #[trigger] d[i] == (h, Tier::Relay);
                    assert(tiers[i] == d[i]);
                }
            }
            assert(tiers.last() != (h, Tier::Relay)) by {
                if tiers.last() == (h, Tier::Relay) {
                    assert(tiers[tiers.len() - 1] == (h, Tier::Relay));
                }
            }
        }
    }
}

proof fn lemma_load_of_persisted(e: Entries, now: u64, k: Seq<char>)
    requires
        keys_distinct(e),
    ensures
        load_spec(Map::empty(), persisted_spec(e), now).dom().contains(k) <==> (map_of(
            e,
        ).dom().contains(k) && map_of(e)[k].tier != Tier::Direct),
        load_spec(Map::empty(), persisted_spec(e), now).dom().contains(k) ==> load_spec(
            Map::empty(),
            persisted_spec(e),
            now,
        )[k].tier == map_of(e)[k].tier,
    decreases e.len(),
{
    if e.len() > 0 {
        let d = e.drop_last();
        assert(keys_distinct(d));
        lemma_load_of_persisted(d, now, k);
        let p = persisted_spec(d);
        if e.last().1.tier != Tier::Direct {
            assert(persisted_spec(e).drop_last() =~= p);
        } else {
            assert(persisted_spec(e) == p);
            if k == e.last().0 {
                lemma_map_of_dom(d, k);
                if map_of(d).dom().contains(k) {
                    let i = choose|i: int| 0 <= i < d.len() && d[i].0 == k;
                    assert(e[i].0 == e[e.len() - 1].0);
                }
            }
        }
    }
}

/// Writing the verdicts to disk and loading them into a fresh state restores
/// exactly the origins that were off the direct route, on the same tiers.
pub proof fn law_persist_then_load_restores_tiers(s: EdgeState, now: u64, k: Seq<char>)
    requires
        s.wf(),
    ensures
        ({
            let loaded = load_spec(Map::empty(), persisted_spec(s.entries()), now);
            &&& loaded.dom().contains(k) <==> (s@.dom().contains(k) && s@[k].tier != Tier::Direct)
            &&& loaded.dom().contains(k) ==> loaded[k].tier == s@[k].tier
        }),
{
    lemma_load_of_persisted(s.entries(), now, k);
}

} // verus!
