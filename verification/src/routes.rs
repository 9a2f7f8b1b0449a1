//! The catalog endpoints the app calls: which SoundCloud request (if any)
//! answers each path, and how its outcome becomes the app's reply.

use vstd::prelude::*;

use crate::catalog::{
    after_last_colon, default_playlist, default_playlist_doc, default_user, default_user_doc,
    empty_array, empty_page, featured_doc, featured_from_chart, num, object1, page_doc,
    page_params, page_params_spec, parse_u64, put, collection_of, has_more_spec, strip_urn, text,
    wrap_page, Query, opt_str_view, lyrics_none, lyrics_none_doc, set_member, with_member,
};
use crate::json::{field, members_view, Json, JsonV};
use crate::text::{
    assoc_first, chars_of, concat, contains, decimal, decimal_string, is_prefix, occurs,
    parse_unsigned, starts_with, str_eq, string_of,
};

verus! {

// ---------------------------------------------------------------------------
// Paths
// ---------------------------------------------------------------------------

/// Splitting on `/`: `cur` is the segment being read, `acc` the ones done;
/// empty segments are dropped.
pub open spec fn split_acc(s: Seq<char>, cur: Seq<char>, acc: Seq<Seq<char>>) -> Seq<Seq<char>>
    decreases s.len(),
{
    if s.len() == 0 {
        if cur.len() > 0 {
            acc.push(cur)
        } else {
            acc
        }
    } else if s[0] == '/' {
        split_acc(
            s.drop_first(),
            Seq::empty(),
            if cur.len() > 0 {
                acc.push(cur)
            } else {
                acc
            },
        )
    } else {
        split_acc(s.drop_first(), cur.push(s[0]), acc)
    }
}

/// The non-empty `/`-separated segments of a path.
pub open spec fn segments(path: Seq<char>) -> Seq<Seq<char>> {
    split_acc(path, Seq::empty(), Seq::empty())
}

pub open spec fn strings_view(v: Seq<String>) -> Seq<Seq<char>> {
    v.map_values(|s: String| s@)
}

/// The non-empty `/`-separated segments of a path.
pub fn path_segments(path: &str) -> (r: Vec<String>)
    ensures
        strings_view(r@) == segments(path@),
{
    let cs = chars_of(path);
    let mut cur: Vec<char> = Vec::new();
    let mut acc: Vec<String> = Vec::new();
    let mut i: usize = 0;
    assert(path@.subrange(0, path@.len() as int) =~= path@);
    assert(strings_view(acc@) =~= Seq::<Seq<char>>::empty());
    assert(cur@ =~= Seq::<char>::empty());
    while i < cs.len()
        invariant
            cs@ == path@,
            i <= cs@.len(),
            segments(path@) == split_acc(
                path@.subrange(i as int, path@.len() as int),
                cur@,
                strings_view(acc@),
            ),
        decreases cs.len() - i,
    {
        let ghost rest = path@.subrange(i as int, path@.len() as int);
        assert(rest[0] == cs@[i as int]);
        assert(rest.drop_first() =~= path@.subrange(i + 1, path@.len() as int));
        if cs[i] == '/' {
            if cur.len() > 0 {
                let ghost before = acc@;
                acc.push(string_of(cur.as_slice()));
                assert(strings_view(acc@) =~= strings_view(before).push(cur@));
            }
            cur = Vec::new();
            assert(cur@ =~= Seq::<char>::empty());
        } else {
            cur.push(cs[i]);
        }
        i = i + 1;
    }
    assert(path@.subrange(i as int, path@.len() as int) =~= Seq::<char>::empty());
    if cur.len() > 0 {
        let ghost before = acc@;
        acc.push(string_of(cur.as_slice()));
        assert(strings_view(acc@) =~= strings_view(before).push(cur@));
    }
    acc
}

/// Splitting on `c`, keeping empty pieces (as `str::split`).
pub open spec fn split_keep(s: Seq<char>, c: char, cur: Seq<char>, acc: Seq<Seq<char>>) -> Seq<
    Seq<char>,
>
    decreases s.len(),
{
    if s.len() == 0 {
        acc.push(cur)
    } else if s[0] == c {
        split_keep(s.drop_first(), c, Seq::empty(), acc.push(cur))
    } else {
        split_keep(s.drop_first(), c, cur.push(s[0]), acc)
    }
}

/// The pieces joined with `sep` between them.
pub open spec fn join(pieces: Seq<Seq<char>>, sep: Seq<char>) -> Seq<char>
    decreases pieces.len(),
{
    if pieces.len() == 0 {
        Seq::empty()
    } else if pieces.len() == 1 {
        pieces[0]
    } else {
        join(pieces.drop_last(), sep) + sep + pieces.last()
    }
}

/// A comma-separated id list with every URN reduced to its bare id.
pub open spec fn strip_ids_spec(s: Seq<char>) -> Seq<char> {
    join(
        split_keep(s, ',', Seq::empty(), Seq::empty()).map_values(|p: Seq<char>| after_last_colon(p)),
        ","@,
    )
}

/// A comma-separated id list with every URN reduced to its bare id.
pub fn strip_ids(s: &str) -> (r: String)
    ensures
        r@ == strip_ids_spec(s@),
{
    let cs = chars_of(s);
    let mut cur: Vec<char> = Vec::new();
    let mut pieces: Vec<String> = Vec::new();
    let mut i: usize = 0;
    assert(s@.subrange(0, s@.len() as int) =~= s@);
    assert(strings_view(pieces@) =~= Seq::<Seq<char>>::empty());
    assert(cur@ =~= Seq::<char>::empty());
    while i < cs.len()
        invariant
            cs@ == s@,
            i <= cs@.len(),
            split_keep(s@, ',', Seq::empty(), Seq::empty()) == split_keep(
                s@.subrange(i as int, s@.len() as int),
                ',',
                cur@,
                strings_view(pieces@),
            ),
        decreases cs.len() - i,
    {
        let ghost rest = s@.subrange(i as int, s@.len() as int);
        assert(rest[0] == cs@[i as int]);
        assert(rest.drop_first() =~= s@.subrange(i + 1, s@.len() as int));
        if cs[i] == ',' {
            let ghost before = pieces@;
            pieces.push(string_of(cur.as_slice()));
            assert(strings_view(pieces@) =~= strings_view(before).push(cur@));
            cur = Vec::new();
            assert(cur@ =~= Seq::<char>::empty());
        } else {
            cur.push(cs[i]);
        }
        i = i + 1;
    }
    assert(s@.subrange(i as int, s@.len() as int) =~= Seq::<char>::empty());
    let ghost before = pieces@;
    pieces.push(string_of(cur.as_slice()));
    assert(strings_view(pieces@) =~= strings_view(before).push(cur@));
    let ghost all = split_keep(s@, ',', Seq::empty(), Seq::empty());
    let ghost stripped = all.map_values(|p: Seq<char>| after_last_colon(p));
    assert(all == strings_view(pieces@));
    let mut out = String::new();
    let mut k: usize = 0;
    while k < pieces.len()
        invariant
            k <= pieces@.len(),
            all == strings_view(pieces@),
            stripped == all.map_values(|p: Seq<char>| after_last_colon(p)),
            out@ == join(stripped.subrange(0, k as int), ","@),
        decreases pieces.len() - k,
    {
        let piece = strip_urn(pieces[k].as_str());
        assert(piece@ == stripped[k as int]);
        let ghost prev = stripped.subrange(0, k as int);
        assert(stripped.subrange(0, k + 1).drop_last() =~= prev);
        if k == 0 {
            out = piece;
            assert(stripped.subrange(0, 1) =~= seq![stripped[0]]);
        } else {
            out = concat(out.as_str(), ",");
            out = concat(out.as_str(), piece.as_str());
        }
        k = k + 1;
    }
    assert(stripped.subrange(0, stripped.len() as int) =~= stripped);
    out
}

// ---------------------------------------------------------------------------
// Plans
// ---------------------------------------------------------------------------

/// How the outcome of a SoundCloud request becomes the reply.
#[derive(Clone, Copy, PartialEq, Eq, Structural, Debug)]
pub enum Settle {
    /// The answer as it is; a failure stays a failure.
    AsIs,
    /// The answer in the paged shape; a failure stays a failure.
    Page,
    /// The answer in the paged shape; a failure becomes an empty page.
    PageOrEmpty,
    /// The answer as it is; a failure becomes the placeholder user.
    OrDefaultUser,
    /// The answer as it is; a failure becomes the placeholder playlist.
    OrDefaultPlaylist,
    /// The answer as it is; a failure becomes an empty collection.
    OrEmptyCollection,
    /// The first chart entry as the featured hero; a failure stays a failure.
    Featured,
}

/// What answering a catalog path takes.
pub enum CatalogPlan {
    /// A fixed reply, no request needed.
    Answer(Json),
    /// A failure with this message.
    Refuse(String),
    /// One SoundCloud API request, settled as `settle` says.
    Fetch { path: String, params: Vec<(String, String)>, settle: Settle, page: usize, size: usize },
    /// One page of a playlist's tracks, cut out of the (cached) playlist.
    PlaylistTracks { id: String, page: usize, size: usize },
    /// A lyrics lookup.
    Lyrics { artist: String, title: String, duration_ms: Option<u64> },
    /// A lyrics lookup for a SoundCloud track, found by id.
    TrackLyrics { id: String },
}

/// A plan as plain values.
pub enum PlanV {
    Answer(JsonV),
    Refuse(Seq<char>),
    Fetch {
        path: Seq<char>,
        params: Seq<(Seq<char>, Seq<char>)>,
        settle: Settle,
        page: nat,
        size: nat,
    },
    PlaylistTracks { id: Seq<char>, page: nat, size: nat },
    Lyrics { artist: Seq<char>, title: Seq<char>, duration_ms: Option<nat> },
    TrackLyrics { id: Seq<char> },
}

pub open spec fn pairs_view(v: Seq<(String, String)>) -> Seq<(Seq<char>, Seq<char>)> {
    v.map_values(|p: (String, String)| (p.0@, p.1@))
}

impl View for CatalogPlan {
    type V = PlanV;

    open spec fn view(&self) -> PlanV {
        match self {
            CatalogPlan::Answer(j) => PlanV::Answer(j@),
            CatalogPlan::Refuse(m) => PlanV::Refuse(m@),
            CatalogPlan::Fetch { path, params, settle, page, size } => PlanV::Fetch {
                path: path@,
                params: pairs_view(params@),
                settle: *settle,
                page: *page as nat,
                size: *size as nat,
            },
            CatalogPlan::PlaylistTracks { id, page, size } => PlanV::PlaylistTracks {
                id: id@,
                page: *page as nat,
                size: *size as nat,
            },
            CatalogPlan::Lyrics { artist, title, duration_ms } => PlanV::Lyrics {
                artist: artist@,
                title: title@,
                duration_ms: match duration_ms {
                    Some(d) => Some(*d as nat),
                    None => None,
                },
            },
            CatalogPlan::TrackLyrics { id } => PlanV::TrackLyrics { id: id@ },
        }
    }
}

// ---------------------------------------------------------------------------
// Fixed replies
// ---------------------------------------------------------------------------

pub open spec fn obj1_doc(k: Seq<char>, v: JsonV) -> JsonV {
    JsonV::Obj(seq![(k, v)])
}

pub open spec fn obj2_doc(k1: Seq<char>, v1: JsonV, k2: Seq<char>, v2: JsonV) -> JsonV {
    JsonV::Obj(seq![(k1, v1), (k2, v2)])
}

fn object2(k1: &str, v1: Json, k2: &str, v2: Json) -> (j: Json)
    ensures
        j@ == obj2_doc(k1@, v1@, k2@, v2@),
{
    let ghost a = v1@;
    let ghost b = v2@;
    let mut m: Vec<(String, Json)> = Vec::new();
    put(&mut m, k1, v1);
    put(&mut m, k2, v2);
    assert(members_view(m@) =~= seq![(k1@, a), (k2@, b)]);
    Json::Obj(m)
}

pub open spec fn empty_arr() -> JsonV {
    JsonV::Arr(Seq::empty())
}

pub open spec fn vibe_doc() -> JsonV {
    JsonV::Obj(
        seq![
            ("items"@, empty_arr()),
            ("atmosphere"@, obj1_doc("topGenres"@, empty_arr())),
            ("status"@, JsonV::Str("ready"@)),
        ],
    )
}

fn vibe() -> (j: Json)
    ensures
        j@ == vibe_doc(),
{
    let mut m: Vec<(String, Json)> = Vec::new();
    put(&mut m, "items", empty_array());
    put(&mut m, "atmosphere", object1("topGenres", empty_array()));
    put(&mut m, "status", text("ready"));
    assert(members_view(m@) =~= seq![
        ("items"@, empty_arr()),
        ("atmosphere"@, obj1_doc("topGenres"@, empty_arr())),
        ("status"@, JsonV::Str("ready"@)),
    ]);
    Json::Obj(m)
}

/// `{"ok": true}`.
pub open spec fn ok_doc() -> JsonV {
    obj1_doc("ok"@, JsonV::Bool(true))
}

pub open spec fn aura_doc() -> JsonV {
    obj2_doc("aura_id"@, JsonV::Null, "custom_hex"@, JsonV::Null)
}

// ---------------------------------------------------------------------------
// Request parameters
// ---------------------------------------------------------------------------

pub open spec fn offset_of(page: nat, size: nat) -> nat {
    ((page - 1) * size) as nat
}

/// `limit`, `offset` and `linked_partitioning` for page `page` of size
/// `size`, with `access=playable` when `playable`.
pub open spec fn paged_params(page: nat, size: nat, playable: bool) -> Seq<(Seq<char>, Seq<char>)> {
    let base = seq![
        ("limit"@, decimal(size)),
        ("offset"@, decimal(offset_of(page, size))),
        ("linked_partitioning"@, "true"@),
    ];
    if playable {
        base.push(("access"@, "playable"@))
    } else {
        base
    }
}

/// The search query `q` followed by the paging parameters.
pub open spec fn search_params(q: Seq<char>, page: nat, size: nat, playable: bool) -> Seq<
    (Seq<char>, Seq<char>),
> {
    seq![("q"@, q)] + paged_params(page, size, playable)
}

/// The trending chart of all music, one entry.
pub open spec fn chart_params() -> Seq<(Seq<char>, Seq<char>)> {
    seq![
        ("kind"@, "trending"@),
        ("genre"@, "soundcloud:genres:all-music"@),
        ("limit"@, "1"@),
        ("linked_partitioning"@, "true"@),
    ]
}

fn push_param(v: &mut Vec<(String, String)>, k: &str, val: String)
    ensures
        pairs_view(final(v)@) == pairs_view(old(v)@).push((k@, val@)),
{
    let ghost before = v@;
    v.push((k.to_owned(), val));
    assert(v@.drop_last() == before);
    assert(pairs_view(v@) =~= pairs_view(before).push((k@, val@)));
}

fn paged(page: usize, size: usize, playable: bool) -> (v: Vec<(String, String)>)
    requires
        page >= 1,
        (page - 1) * size <= usize::MAX,
    ensures
        pairs_view(v@) == paged_params(page as nat, size as nat, playable),
{
    let mut v: Vec<(String, String)> = Vec::new();
    let offset = (page - 1) * size;
    push_param(&mut v, "limit", decimal_string(size as u64));
    push_param(&mut v, "offset", decimal_string(offset as u64));
    push_param(&mut v, "linked_partitioning", "true".to_owned());
    if playable {
        push_param(&mut v, "access", "playable".to_owned());
    }
    assert(pairs_view(v@) =~= paged_params(page as nat, size as nat, playable));
    v
}

fn search(q: &String, page: usize, size: usize, playable: bool) -> (v: Vec<(String, String)>)
    requires
        page >= 1,
        (page - 1) * size <= usize::MAX,
    ensures
        pairs_view(v@) == search_params(q@, page as nat, size as nat, playable),
{
    let mut v: Vec<(String, String)> = Vec::new();
    push_param(&mut v, "q", q.clone());
    let mut rest = paged(page, size, playable);
    let ghost a = pairs_view(v@);
    let ghost b = pairs_view(rest@);
    v.append(&mut rest);
    assert(pairs_view(v@) =~= a + b);
    v
}

fn chart() -> (v: Vec<(String, String)>)
    ensures
        pairs_view(v@) == chart_params(),
{
    let mut v: Vec<(String, String)> = Vec::new();
    push_param(&mut v, "kind", "trending".to_owned());
    push_param(&mut v, "genre", "soundcloud:genres:all-music".to_owned());
    push_param(&mut v, "limit", "1".to_owned());
    push_param(&mut v, "linked_partitioning", "true".to_owned());
    assert(pairs_view(v@) =~= chart_params());
    v
}

// ---------------------------------------------------------------------------
// The route table
// ---------------------------------------------------------------------------

/// Segment `i` is `lit`.
pub open spec fn seg(s: Seq<Seq<char>>, i: int, lit: Seq<char>) -> bool {
    0 <= i < s.len() && s[i] == lit
}

/// The value of parameter `k` when present and not empty.
pub open spec fn non_empty(q: Seq<(Seq<char>, Seq<char>)>, k: Seq<char>) -> Option<Seq<char>> {
    match assoc_first(q, k) {
        Some(v) => if v.len() > 0 {
            Some(v)
        } else {
            None
        },
        None => None,
    }
}

/// The id segment `i` with any URN prefix removed.
pub open spec fn id_at(s: Seq<Seq<char>>, i: int) -> Seq<char> {
    after_last_colon(s[i])
}

/// A request for `path` with no parameters, settled as `settle`.
pub open spec fn fetch0(path: Seq<char>, settle: Settle, page: nat, size: nat) -> PlanV {
    PlanV::Fetch { path, params: Seq::empty(), settle, page, size }
}

/// The routes that page through SoundCloud and so compute an offset.
pub open spec fn uses_offset(s: Seq<Seq<char>>, q: Seq<(Seq<char>, Seq<char>)>) -> bool {
    let n = s.len();
    ||| n == 1 && seg(s, 0, "tracks"@) && non_empty(q, "ids"@) is None
    ||| n == 3 && seg(s, 0, "tracks"@) && (seg(s, 2, "comments"@) || seg(s, 2, "favoriters"@))
    ||| n == 1 && seg(s, 0, "playlists"@) && non_empty(q, "q"@) is Some
    ||| n == 3 && seg(s, 0, "playlists"@) && seg(s, 2, "tracks"@)
    ||| n == 1 && seg(s, 0, "users"@) && non_empty(q, "q"@) is Some
    ||| n == 3 && seg(s, 0, "users"@) && (seg(s, 2, "tracks"@) || seg(s, 2, "playlists"@) || seg(
        s,
        2,
        "likes"@,
    ) || seg(s, 2, "followings"@) || seg(s, 2, "followers"@))
    ||| n == 4 && seg(s, 0, "users"@) && seg(s, 2, "likes"@) && seg(s, 3, "tracks"@)
    ||| n == 3 && seg(s, 0, "artists"@) && seg(s, 2, "tracks"@)
}

/// What answers the catalog path with segments `s` and query `q`.
pub open spec fn route_spec(s: Seq<Seq<char>>, q: Seq<(Seq<char>, Seq<char>)>) -> PlanV {
    let (page, size) = page_params_spec(q);
    let n = s.len();
    let empty = PlanV::Answer(page_doc(empty_arr(), page, size, false));
    if n == 0 {
        PlanV::Answer(obj2_doc("ok"@, JsonV::Bool(true), "service"@, JsonV::Str("scapi"@)))
    } else if n == 1 && seg(s, 0, "tracks"@) {
        match non_empty(q, "ids"@) {
            Some(ids) => PlanV::Fetch {
                path: "/tracks"@,
                params: seq![("ids"@, strip_ids_spec(ids))],
                settle: Settle::AsIs,
                page,
                size,
            },
            None => match non_empty(q, "q"@) {
                Some(query) => PlanV::Fetch {
                    path: "/search/tracks"@,
                    params: search_params(query, page, size, true),
                    settle: Settle::Page,
                    page,
                    size,
                },
                None => PlanV::Fetch {
                    path: "/tracks"@,
                    params: paged_params(page, size, false),
                    settle: Settle::AsIs,
                    page,
                    size,
                },
            },
        }
    } else if n == 2 && seg(s, 0, "tracks"@) {
        fetch0("/tracks/"@ + id_at(s, 1), Settle::AsIs, page, size)
    } else if n == 3 && seg(s, 0, "tracks"@) && seg(s, 2, "related"@) {
        fetch0("/tracks/"@ + id_at(s, 1) + "/related"@, Settle::OrEmptyCollection, page, size)
    } else if n == 3 && seg(s, 0, "tracks"@) && (seg(s, 2, "comments"@) || seg(
        s,
        2,
        "favoriters"@,
    )) {
        PlanV::Fetch {
            path: "/tracks/"@ + id_at(s, 1) + "/"@ + s[2],
            params: paged_params(page, size, false),
            settle: Settle::PageOrEmpty,
            page,
            size,
        }
    } else if n == 1 && seg(s, 0, "playlists"@) {
        match non_empty(q, "q"@) {
            Some(query) => PlanV::Fetch {
                path: "/search/playlists"@,
                params: search_params(query, page, size, true),
                settle: Settle::Page,
                page,
                size,
            },
            None => PlanV::Refuse("playlists list requires ?q="@),
        }
    } else if n == 2 && seg(s, 0, "playlists"@) {
        fetch0("/playlists/"@ + id_at(s, 1), Settle::AsIs, page, size)
    } else if n == 3 && seg(s, 0, "playlists"@) && seg(s, 2, "tracks"@) {
        PlanV::PlaylistTracks { id: id_at(s, 1), page, size }
    } else if n == 1 && seg(s, 0, "users"@) {
        match non_empty(q, "q"@) {
            Some(query) => PlanV::Fetch {
                path: "/search/users"@,
                params: search_params(query, page, size, false),
                settle: Settle::Page,
                page,
                size,
            },
            None => PlanV::Refuse("users list requires ?q="@),
        }
    } else if n == 2 && seg(s, 0, "users"@) {
        fetch0("/users/"@ + id_at(s, 1), Settle::AsIs, page, size)
    } else if n == 3 && seg(s, 0, "users"@) && seg(s, 2, "tracks"@) {
        PlanV::Fetch {
            path: "/users/"@ + id_at(s, 1) + "/tracks"@,
            params: paged_params(page, size, true),
            settle: Settle::Page,
            page,
            size,
        }
    } else if n == 3 && seg(s, 0, "users"@) && (seg(s, 2, "playlists"@) || seg(s, 2, "followings"@)
        || seg(s, 2, "followers"@)) {
        PlanV::Fetch {
            path: "/users/"@ + id_at(s, 1) + "/"@ + s[2],
            params: paged_params(page, size, false),
            settle: Settle::Page,
            page,
            size,
        }
    } else if seg(s, 0, "users"@) && ((n == 4 && seg(s, 2, "likes"@) && seg(s, 3, "tracks"@)) || (n
        == 3 && seg(s, 2, "likes"@))) {
        PlanV::Fetch {
            path: "/users/"@ + id_at(s, 1) + "/likes"@,
            params: paged_params(page, size, false),
            settle: Settle::Page,
            page,
            size,
        }
    } else if n == 3 && seg(s, 0, "users"@) && seg(s, 2, "web-profiles"@) {
        fetch0("/users/"@ + id_at(s, 1) + "/web-profiles"@, Settle::AsIs, page, size)
    } else if n == 4 && seg(s, 0, "users"@) && seg(s, 2, "followings"@) {
        PlanV::Answer(obj1_doc("following"@, JsonV::Bool(false)))
    } else if n == 3 && seg(s, 0, "users"@) && seg(s, 2, "aura"@) {
        PlanV::Answer(aura_doc())
    } else if n == 3 && seg(s, 0, "users"@) && seg(s, 2, "subscription"@) {
        PlanV::Answer(obj1_doc("premium"@, JsonV::Bool(false)))
    } else if n == 2 && seg(s, 0, "artists"@) {
        fetch0("/users/"@ + id_at(s, 1), Settle::OrDefaultUser, page, size)
    } else if n == 3 && seg(s, 0, "artists"@) && seg(s, 2, "tracks"@) {
        PlanV::Fetch {
            path: "/users/"@ + id_at(s, 1) + "/tracks"@,
            params: paged_params(page, size, true),
            settle: Settle::PageOrEmpty,
            page,
            size,
        }
    } else if n == 3 && seg(s, 0, "artists"@) && seg(s, 2, "albums"@) {
        PlanV::Answer(empty_arr())
    } else if n == 3 && seg(s, 0, "artists"@) && seg(s, 2, "covers"@) {
        empty
    } else if n == 3 && seg(s, 0, "artists"@) && seg(s, 2, "star"@) {
        PlanV::Answer(obj1_doc("star"@, JsonV::Num(decimal(0))))
    } else if n == 2 && seg(s, 0, "albums"@) {
        fetch0("/playlists/"@ + id_at(s, 1), Settle::OrDefaultPlaylist, page, size)
    } else if n == 1 && seg(s, 0, "resolve"@) {
        match non_empty(q, "url"@) {
            Some(url) => PlanV::Fetch {
                path: "/resolve"@,
                params: seq![("url"@, url)],
                settle: Settle::AsIs,
                page,
                size,
            },
            None => PlanV::Refuse("resolve requires ?url="@),
        }
    } else if n == 1 && seg(s, 0, "featured"@) {
        PlanV::Fetch {
            path: "/charts"@,
            params: chart_params(),
            settle: Settle::Featured,
            page,
            size,
        }
    } else if n == 3 && seg(s, 0, "likes"@) && (seg(s, 1, "tracks"@) || seg(s, 1, "playlists"@)) {
        PlanV::Answer(obj1_doc("liked"@, JsonV::Bool(false)))
    } else if n == 3 && seg(s, 0, "dislikes"@) && seg(s, 1, "status"@) {
        PlanV::Answer(obj1_doc("disliked"@, JsonV::Bool(false)))
    } else if n == 2 && seg(s, 0, "dislikes"@) && seg(s, 1, "ids"@) {
        PlanV::Answer(obj1_doc("ids"@, empty_arr()))
    } else if n == 2 && seg(s, 0, "dislikes"@) {
        PlanV::Answer(ok_doc())
    } else if n == 1 && seg(s, 0, "recommendations"@) {
        PlanV::Answer(obj1_doc("clusters"@, empty_arr()))
    } else if n >= 2 && seg(s, 0, "recommendations"@) && seg(s, 1, "wave"@) {
        PlanV::Answer(obj2_doc("tracks"@, empty_arr(), "cursor"@, JsonV::Null))
    } else if n == 3 && seg(s, 0, "recommendations"@) && seg(s, 1, "similar"@) {
        PlanV::Answer(obj1_doc("clusters"@, empty_arr()))
    } else if n == 2 && seg(s, 0, "recommendations"@) && seg(s, 1, "feedback"@) {
        PlanV::Answer(ok_doc())
    } else if n >= 3 && seg(s, 0, "search"@) && seg(s, 1, "db"@) {
        empty
    } else if n >= 2 && seg(s, 0, "search"@) && seg(s, 1, "vibe"@) {
        PlanV::Answer(vibe_doc())
    } else if (n >= 2 && seg(s, 0, "search"@) && seg(s, 1, "lyrics"@)) || (n == 2 && seg(
        s,
        0,
        "lyrics"@,
    ) && seg(s, 1, "search"@)) {
        PlanV::Lyrics {
            artist: match assoc_first(q, "artist"@) {
                Some(a) => a,
                None => Seq::empty(),
            },
            title: match assoc_first(q, "title"@) {
                Some(t) => t,
                None => Seq::empty(),
            },
            duration_ms: match assoc_first(q, "duration"@) {
                Some(d) => parse_unsigned(d, u64::MAX as nat),
                None => None,
            },
        }
    } else if n == 2 && seg(s, 0, "lyrics"@) {
        PlanV::TrackLyrics { id: id_at(s, 1) }
    } else if n == 3 && (seg(s, 0, "tracks"@) || seg(s, 0, "playlists"@)) && seg(s, 2, "sharing"@) {
        PlanV::Answer(ok_doc())
    } else if n >= 1 && seg(s, 0, "discover"@) {
        empty
    } else if n == 2 && seg(s, 0, "indexing"@) && seg(s, 1, "stats"@) {
        PlanV::Answer(
            obj2_doc("indexed"@, JsonV::Num(decimal(0)), "pending"@, JsonV::Num(decimal(0))),
        )
    } else if n >= 1 && seg(s, 0, "history"@) {
        empty
    } else if n >= 1 && seg(s, 0, "events"@) {
        PlanV::Answer(ok_doc())
    } else if seg(s, 0, "me"@) && ((n == 2 && (seg(s, 1, "playlists"@) || seg(s, 1, "followings"@)))
        || (n == 3 && seg(s, 1, "likes"@) && (seg(s, 2, "playlists"@) || seg(s, 2, "tracks"@))) || (
    n == 3 && seg(s, 1, "followings"@) && seg(s, 2, "tracks"@))) {
        empty
    } else if n == 3 && seg(s, 0, "me"@) && seg(s, 1, "followings"@) {
        PlanV::Answer(obj1_doc("following"@, JsonV::Bool(false)))
    } else if n == 2 && seg(s, 0, "me"@) && seg(s, 1, "aura"@) {
        PlanV::Answer(aura_doc())
    } else if n == 2 && seg(s, 0, "me"@) && seg(s, 1, "subscription"@) {
        PlanV::Answer(obj1_doc("premium"@, JsonV::Bool(false)))
    } else if n == 2 && seg(s, 0, "me"@) && seg(s, 1, "cold"@) {
        PlanV::Answer(obj2_doc("id"@, JsonV::Null, "username"@, JsonV::Null))
    } else if n >= 1 && seg(s, 0, "auth"@) {
        PlanV::Answer(obj1_doc("authenticated"@, JsonV::Bool(false)))
    } else if n >= 1 && seg(s, 0, "subscription"@) {
        PlanV::Answer(obj1_doc("premium"@, JsonV::Bool(false)))
    } else if n >= 1 && seg(s, 0, "me"@) {
        PlanV::Answer(JsonV::Obj(Seq::empty()))
    } else {
        PlanV::Refuse("not found"@)
    }
}

fn is_seg(segs: &Vec<String>, i: usize, lit: &str) -> (r: bool)
    ensures
        r == seg(strings_view(segs@), i as int, lit@),
{
    if i < segs.len() {
        str_eq(segs[i].as_str(), lit)
    } else {
        false
    }
}

fn fetch_plain(path: String, settle: Settle, page: usize, size: usize) -> (p: CatalogPlan)
    ensures
        p@ == fetch0(path@, settle, page as nat, size as nat),
{
    let params: Vec<(String, String)> = Vec::new();
    assert(pairs_view(params@) =~= Seq::<(Seq<char>, Seq<char>)>::empty());
    CatalogPlan::Fetch { path, params, settle, page, size }
}

fn path2(a: &str, id: &String) -> (r: String)
    ensures
        r@ == a@ + after_last_colon(id@),
{
    let bare = strip_urn(id.as_str());
    concat(a, bare.as_str())
}

fn path3(a: &str, id: &String, b: &str) -> (r: String)
    ensures
        r@ == a@ + after_last_colon(id@) + b@,
{
    let p = path2(a, id);
    concat(p.as_str(), b)
}

fn answer_page(page: usize, size: usize) -> (p: CatalogPlan)
    ensures
        p@ == PlanV::Answer(page_doc(empty_arr(), page as nat, size as nat, false)),
{
    CatalogPlan::Answer(empty_page(page, size))
}

fn answer_flag(k: &str, b: bool) -> (p: CatalogPlan)
    ensures
        p@ == PlanV::Answer(obj1_doc(k@, JsonV::Bool(b))),
{
    CatalogPlan::Answer(object1(k, Json::Bool(b)))
}

/// What answers the catalog path `path` with query `q`.
pub fn plan_route(path: &str, q: &Query) -> (p: CatalogPlan)
    requires
        uses_offset(segments(path@), q@) ==> (page_params_spec(q@).0 - 1) * page_params_spec(q@).1
            <= usize::MAX,
    ensures
        p@ == route_spec(segments(path@), q@),
{
    let segs = path_segments(path);
    let ghost s = strings_view(segs@);
    let n = segs.len();
    if n == 0 {
        return CatalogPlan::Answer(object2("ok", Json::Bool(true), "service", text("scapi")));
    }
    let (page, size) = page_params(q);
    if n == 1 && is_seg(&segs, 0, "tracks") {
        match q.non_empty("ids") {
            Some(ids) => {
                let mut params: Vec<(String, String)> = Vec::new();
                push_param(&mut params, "ids", strip_ids(ids.as_str()));
                assert(pairs_view(params@) =~= seq![("ids"@, strip_ids_spec(ids@))]);
                return CatalogPlan::Fetch {
                    path: "/tracks".to_owned(),
                    params,
                    settle: Settle::AsIs,
                    page,
                    size,
                };
            },
            None => match q.non_empty("q") {
                Some(query) => {
                    return CatalogPlan::Fetch {
                        path: "/search/tracks".to_owned(),
                        params: search(query, page, size, true),
                        settle: Settle::Page,
                        page,
                        size,
                    };
                },
                None => {
                    return CatalogPlan::Fetch {
                        path: "/tracks".to_owned(),
                        params: paged(page, size, false),
                        settle: Settle::AsIs,
                        page,
                        size,
                    };
                },
            },
        }
    }
    if n == 2 && is_seg(&segs, 0, "tracks") {
        return fetch_plain(path2("/tracks/", &segs[1]), Settle::AsIs, page, size);
    }
    if n == 3 && is_seg(&segs, 0, "tracks") && is_seg(&segs, 2, "related") {
        return fetch_plain(
            path3("/tracks/", &segs[1], "/related"),
            Settle::OrEmptyCollection,
            page,
            size,
        );
    }
    if n == 3 && is_seg(&segs, 0, "tracks") && (is_seg(&segs, 2, "comments") || is_seg(
        &segs,
        2,
        "favoriters",
    )) {
        let p = path3("/tracks/", &segs[1], "/");
        return CatalogPlan::Fetch {
            path: concat(p.as_str(), segs[2].as_str()),
            params: paged(page, size, false),
            settle: Settle::PageOrEmpty,
            page,
            size,
        };
    }
    if n == 1 && is_seg(&segs, 0, "playlists") {
        match q.non_empty("q") {
            Some(query) => {
                return CatalogPlan::Fetch {
                    path: "/search/playlists".to_owned(),
                    params: search(query, page, size, true),
                    settle: Settle::Page,
                    page,
                    size,
                };
            },
            None => {
                return CatalogPlan::Refuse("playlists list requires ?q=".to_owned());
            },
        }
    }
    if n == 2 && is_seg(&segs, 0, "playlists") {
        return fetch_plain(path2("/playlists/", &segs[1]), Settle::AsIs, page, size);
    }
    if n == 3 && is_seg(&segs, 0, "playlists") && is_seg(&segs, 2, "tracks") {
        return CatalogPlan::PlaylistTracks { id: strip_urn(segs[1].as_str()), page, size };
    }
    if n == 1 && is_seg(&segs, 0, "users") {
        match q.non_empty("q") {
            Some(query) => {
                return CatalogPlan::Fetch {
                    path: "/search/users".to_owned(),
                    params: search(query, page, size, false),
                    settle: Settle::Page,
                    page,
                    size,
                };
            },
            None => {
                return CatalogPlan::Refuse("users list requires ?q=".to_owned());
            },
        }
    }
    if n == 2 && is_seg(&segs, 0, "users") {
        return fetch_plain(path2("/users/", &segs[1]), Settle::AsIs, page, size);
    }
    if n == 3 && is_seg(&segs, 0, "users") && is_seg(&segs, 2, "tracks") {
        return CatalogPlan::Fetch {
            path: path3("/users/", &segs[1], "/tracks"),
            params: paged(page, size, true),
            settle: Settle::Page,
            page,
            size,
        };
    }
    if n == 3 && is_seg(&segs, 0, "users") && (is_seg(&segs, 2, "playlists") || is_seg(
        &segs,
        2,
        "followings",
    ) || is_seg(&segs, 2, "followers")) {
        let p = path3("/users/", &segs[1], "/");
        return CatalogPlan::Fetch {
            path: concat(p.as_str(), segs[2].as_str()),
            params: paged(page, size, false),
            settle: Settle::Page,
            page,
            size,
        };
    }
    if is_seg(&segs, 0, "users") && ((n == 4 && is_seg(&segs, 2, "likes") && is_seg(
        &segs,
        3,
        "tracks",
    )) || (n == 3 && is_seg(&segs, 2, "likes"))) {
        return CatalogPlan::Fetch {
            path: path3("/users/", &segs[1], "/likes"),
            params: paged(page, size, false),
            settle: Settle::Page,
            page,
            size,
        };
    }
    if n == 3 && is_seg(&segs, 0, "users") && is_seg(&segs, 2, "web-profiles") {
        return fetch_plain(path3("/users/", &segs[1], "/web-profiles"), Settle::AsIs, page, size);
    }
    if n == 4 && is_seg(&segs, 0, "users") && is_seg(&segs, 2, "followings") {
        return answer_flag("following", false);
    }
    if n == 3 && is_seg(&segs, 0, "users") && is_seg(&segs, 2, "aura") {
        return CatalogPlan::Answer(object2("aura_id", Json::Null, "custom_hex", Json::Null));
    }
    if n == 3 && is_seg(&segs, 0, "users") && is_seg(&segs, 2, "subscription") {
        return answer_flag("premium", false);
    }
    if n == 2 && is_seg(&segs, 0, "artists") {
        return fetch_plain(path2("/users/", &segs[1]), Settle::OrDefaultUser, page, size);
    }
    if n == 3 && is_seg(&segs, 0, "artists") && is_seg(&segs, 2, "tracks") {
        return CatalogPlan::Fetch {
            path: path3("/users/", &segs[1], "/tracks"),
            params: paged(page, size, true),
            settle: Settle::PageOrEmpty,
            page,
            size,
        };
    }
    if n == 3 && is_seg(&segs, 0, "artists") && is_seg(&segs, 2, "albums") {
        return CatalogPlan::Answer(empty_array());
    }
    if n == 3 && is_seg(&segs, 0, "artists") && is_seg(&segs, 2, "covers") {
        return answer_page(page, size);
    }
    if n == 3 && is_seg(&segs, 0, "artists") && is_seg(&segs, 2, "star") {
        return CatalogPlan::Answer(object1("star", num(0)));
    }
    if n == 2 && is_seg(&segs, 0, "albums") {
        return fetch_plain(path2("/playlists/", &segs[1]), Settle::OrDefaultPlaylist, page, size);
    }
    if n == 1 && is_seg(&segs, 0, "resolve") {
        match q.non_empty("url") {
            Some(url) => {
                let mut params: Vec<(String, String)> = Vec::new();
                push_param(&mut params, "url", url.clone());
                assert(pairs_view(params@) =~= seq![("url"@, url@)]);
                return CatalogPlan::Fetch {
                    path: "/resolve".to_owned(),
                    params,
                    settle: Settle::AsIs,
                    page,
                    size,
                };
            },
            None => {
                return CatalogPlan::Refuse("resolve requires ?url=".to_owned());
            },
        }
    }
    if n == 1 && is_seg(&segs, 0, "featured") {
        return CatalogPlan::Fetch {
            path: "/charts".to_owned(),
            params: chart(),
            settle: Settle::Featured,
            page,
            size,
        };
    }
    if n == 3 && is_seg(&segs, 0, "likes") && (is_seg(&segs, 1, "tracks") || is_seg(
        &segs,
        1,
        "playlists",
    )) {
        return answer_flag("liked", false);
    }
    if n == 3 && is_seg(&segs, 0, "dislikes") && is_seg(&segs, 1, "status") {
        return answer_flag("disliked", false);
    }
    if n == 2 && is_seg(&segs, 0, "dislikes") && is_seg(&segs, 1, "ids") {
        return CatalogPlan::Answer(object1("ids", empty_array()));
    }
    if n == 2 && is_seg(&segs, 0, "dislikes") {
        return answer_flag("ok", true);
    }
    if n == 1 && is_seg(&segs, 0, "recommendations") {
        return CatalogPlan::Answer(object1("clusters", empty_array()));
    }
    if n >= 2 && is_seg(&segs, 0, "recommendations") && is_seg(&segs, 1, "wave") {
        return CatalogPlan::Answer(object2("tracks", empty_array(), "cursor", Json::Null));
    }
    if n == 3 && is_seg(&segs, 0, "recommendations") && is_seg(&segs, 1, "similar") {
        return CatalogPlan::Answer(object1("clusters", empty_array()));
    }
    if n == 2 && is_seg(&segs, 0, "recommendations") && is_seg(&segs, 1, "feedback") {
        return answer_flag("ok", true);
    }
    if n >= 3 && is_seg(&segs, 0, "search") && is_seg(&segs, 1, "db") {
        return answer_page(page, size);
    }
    if n >= 2 && is_seg(&segs, 0, "search") && is_seg(&segs, 1, "vibe") {
        return CatalogPlan::Answer(vibe());
    }
    if (n >= 2 && is_seg(&segs, 0, "search") && is_seg(&segs, 1, "lyrics")) || (n == 2 && is_seg(
        &segs,
        0,
        "lyrics",
    ) && is_seg(&segs, 1, "search")) {
        let artist = match q.get("artist") {
            Some(a) => a.clone(),
            None => String::new(),
        };
        let title = match q.get("title") {
            Some(t) => t.clone(),
            None => String::new(),
        };
        let duration_ms = match q.get("duration") {
            Some(d) => parse_u64(d.as_str()),
            None => None,
        };
        return CatalogPlan::Lyrics { artist, title, duration_ms };
    }
    if n == 2 && is_seg(&segs, 0, "lyrics") {
        return CatalogPlan::TrackLyrics { id: strip_urn(segs[1].as_str()) };
    }
    if n == 3 && (is_seg(&segs, 0, "tracks") || is_seg(&segs, 0, "playlists")) && is_seg(
        &segs,
        2,
        "sharing",
    ) {
        return answer_flag("ok", true);
    }
    if n >= 1 && is_seg(&segs, 0, "discover") {
        return answer_page(page, size);
    }
    if n == 2 && is_seg(&segs, 0, "indexing") && is_seg(&segs, 1, "stats") {
        return CatalogPlan::Answer(object2("indexed", num(0), "pending", num(0)));
    }
    if n >= 1 && is_seg(&segs, 0, "history") {
        return answer_page(page, size);
    }
    if n >= 1 && is_seg(&segs, 0, "events") {
        return answer_flag("ok", true);
    }
    if is_seg(&segs, 0, "me") && ((n == 2 && (is_seg(&segs, 1, "playlists") || is_seg(
        &segs,
        1,
        "followings",
    ))) || (n == 3 && is_seg(&segs, 1, "likes") && (is_seg(&segs, 2, "playlists") || is_seg(
        &segs,
        2,
        "tracks",
    ))) || (n == 3 && is_seg(&segs, 1, "followings") && is_seg(&segs, 2, "tracks"))) {
        return answer_page(page, size);
    }
    if n == 3 && is_seg(&segs, 0, "me") && is_seg(&segs, 1, "followings") {
        return answer_flag("following", false);
    }
    if n == 2 && is_seg(&segs, 0, "me") && is_seg(&segs, 1, "aura") {
        return CatalogPlan::Answer(object2("aura_id", Json::Null, "custom_hex", Json::Null));
    }
    if n == 2 && is_seg(&segs, 0, "me") && is_seg(&segs, 1, "subscription") {
        return answer_flag("premium", false);
    }
    if n == 2 && is_seg(&segs, 0, "me") && is_seg(&segs, 1, "cold") {
        return CatalogPlan::Answer(object2("id", Json::Null, "username", Json::Null));
    }
    if n >= 1 && is_seg(&segs, 0, "auth") {
        return answer_flag("authenticated", false);
    }
    if n >= 1 && is_seg(&segs, 0, "subscription") {
        return answer_flag("premium", false);
    }
    if n >= 1 && is_seg(&segs, 0, "me") {
        let m: Vec<(String, Json)> = Vec::new();
        assert(members_view(m@) =~= Seq::<(Seq<char>, JsonV)>::empty());
        return CatalogPlan::Answer(Json::Obj(m));
    }
    CatalogPlan::Refuse("not found".to_owned())
}

// ---------------------------------------------------------------------------
// Outcomes
// ---------------------------------------------------------------------------

/// A request's outcome as plain values.
pub open spec fn outcome_view(r: Result<Json, String>) -> Result<JsonV, Seq<char>> {
    match r {
        Ok(v) => Ok(v@),
        Err(e) => Err(e@),
    }
}

/// Whether the path with segments `segs` pages through SoundCloud with an
/// offset.
fn needs_offset(segs: &Vec<String>, q: &Query) -> (r: bool)
    ensures
        r == uses_offset(strings_view(segs@), q@),
{
    let n = segs.len();
    let ids_given = q.non_empty("ids").is_some();
    let q_given = q.non_empty("q").is_some();
    (n == 1 && is_seg(segs, 0, "tracks") && !ids_given)
        || (n == 3 && is_seg(segs, 0, "tracks") && (is_seg(segs, 2, "comments") || is_seg(segs, 2, "favoriters")))
        || (n == 1 && is_seg(segs, 0, "playlists") && q_given)
        || (n == 3 && is_seg(segs, 0, "playlists") && is_seg(segs, 2, "tracks"))
        || (n == 1 && is_seg(segs, 0, "users") && q_given)
        || (n == 3 && is_seg(segs, 0, "users") && (is_seg(segs, 2, "tracks") || is_seg(segs, 2, "playlists")
            || is_seg(segs, 2, "likes") || is_seg(segs, 2, "followings") || is_seg(segs, 2, "followers")))
        || (n == 4 && is_seg(segs, 0, "users") && is_seg(segs, 2, "likes") && is_seg(segs, 3, "tracks"))
        || (n == 3 && is_seg(segs, 0, "artists") && is_seg(segs, 2, "tracks"))
}

/// The plan for catalog path `path` with query `q`; `None` where the
/// path pages with an offset that does not fit in a `usize`, a request
/// that cannot be made.
pub fn plan_route_checked(path: &str, q: &Query) -> (r: Option<CatalogPlan>)
    ensures
        match r {
            Some(p) => p@ == route_spec(segments(path@), q@),
            None => uses_offset(segments(path@), q@) && (page_params_spec(q@).0 - 1)
                * page_params_spec(q@).1 > usize::MAX,
        },
{
    let segs = path_segments(path);
    let (page, size) = page_params(q);
    if needs_offset(&segs, q) {
        let fits = (page - 1).checked_mul(size).is_some();
        if !fits {
            return None;
        }
    }
    Some(plan_route(path, q))
}

/// The reply to a SoundCloud request's outcome, as `how` says.
pub open spec fn settle_spec(
    r: Result<JsonV, Seq<char>>,
    how: Settle,
    page: nat,
    size: nat,
) -> Result<JsonV, Seq<char>> {
    match how {
        Settle::AsIs => r,
        Settle::Page => match r {
            Ok(v) => Ok(page_doc(collection_of(v), page, size, has_more_spec(v))),
            Err(e) => Err(e),
        },
        Settle::PageOrEmpty => match r {
            Ok(v) => Ok(page_doc(collection_of(v), page, size, has_more_spec(v))),
            Err(_) => Ok(page_doc(empty_arr(), page, size, false)),
        },
        Settle::OrDefaultUser => match r {
            Ok(v) => Ok(v),
            Err(_) => Ok(default_user_doc()),
        },
        Settle::OrDefaultPlaylist => match r {
            Ok(v) => Ok(v),
            Err(_) => Ok(default_playlist_doc()),
        },
        Settle::OrEmptyCollection => match r {
            Ok(v) => Ok(v),
            Err(_) => Ok(obj1_doc("collection"@, empty_arr())),
        },
        Settle::Featured => match r {
            Ok(v) => Ok(featured_doc(v)),
            Err(e) => Err(e),
        },
    }
}

/// The reply to a SoundCloud request's outcome, as `how` says.
pub fn settle(result: Result<Json, String>, how: Settle, page: usize, size: usize) -> (r: Result<
    Json,
    String,
>)
    ensures
        outcome_view(r) == settle_spec(outcome_view(result), how, page as nat, size as nat),
{
    match how {
        Settle::AsIs => result,
        Settle::Page => match result {
            Ok(v) => Ok(wrap_page(&v, page, size)),
            Err(e) => Err(e),
        },
        Settle::PageOrEmpty => match result {
            Ok(v) => Ok(wrap_page(&v, page, size)),
            Err(_) => Ok(empty_page(page, size)),
        },
        Settle::OrDefaultUser => match result {
            Ok(v) => Ok(v),
            Err(_) => Ok(default_user()),
        },
        Settle::OrDefaultPlaylist => match result {
            Ok(v) => Ok(v),
            Err(_) => Ok(default_playlist()),
        },
        Settle::OrEmptyCollection => match result {
            Ok(v) => Ok(v),
            Err(_) => Ok(object1("collection", empty_array())),
        },
        Settle::Featured => match result {
            Ok(v) => Ok(featured_from_chart(&v)),
            Err(e) => Err(e),
        },
    }
}

/// The HTTP status and body the app receives for an outcome: 200 with the
/// document; for a failure `{"message": ...}` with 404 for "not found" and
/// SoundCloud 4xx answers, 401 for a message starting with "requires", 502
/// otherwise.
pub open spec fn reply_spec(r: Result<JsonV, Seq<char>>) -> (u16, JsonV) {
    match r {
        Ok(v) => (200, v),
        Err(msg) => if msg == "not found"@ {
            (404, obj1_doc("message"@, JsonV::Str("not found"@)))
        } else if occurs("HTTP 4"@, msg) {
            (404, obj1_doc("message"@, JsonV::Str(msg)))
        } else if is_prefix("requires"@, msg) {
            (401, obj1_doc("message"@, JsonV::Str(msg)))
        } else {
            (502, obj1_doc("message"@, JsonV::Str(msg)))
        },
    }
}

/// The HTTP status and body the app receives for an outcome.
pub fn reply_for(result: Result<Json, String>) -> (r: (u16, Json))
    ensures
        (r.0, r.1@) == reply_spec(outcome_view(result)),
{
    match result {
        Ok(v) => (200, v),
        Err(msg) => {
            if str_eq(msg.as_str(), "not found") {
                (404, object1("message", text("not found")))
            } else if contains(msg.as_str(), "HTTP 4") {
                (404, object1("message", text(msg.as_str())))
            } else if starts_with(msg.as_str(), "requires") {
                (401, object1("message", text(msg.as_str())))
            } else {
                (502, object1("message", text(msg.as_str())))
            }
        },
    }
}

/// The lyrics of SoundCloud track `id`: what the lookup found, or the
/// `none` document when the track or its lyrics could not be had; either
/// way tagged with the track's id.
pub open spec fn track_lyrics_spec(lookup: Result<JsonV, Seq<char>>, id: Seq<char>) -> JsonV {
    let base = match lookup {
        Ok(v) => v,
        Err(_) => lyrics_none_doc(),
    };
    JsonV::Obj(with_member(base->Obj_0, "scTrackId"@, JsonV::Str(id)))
}

/// The reply to the lyrics of SoundCloud track `id`, from the lookup's
/// outcome (a lookup answers with a document, never anything else).
pub fn track_lyrics_reply(lookup: Result<Json, String>, id: &str) -> (r: Json)
    requires
        lookup matches Ok(v) ==> v@ is Obj,
    ensures
        r@ == track_lyrics_spec(outcome_view(lookup), id@),
{
    let base = match lookup {
        Ok(v) => v,
        Err(_) => lyrics_none(),
    };
    set_member(base, "scTrackId", text(id))
}

/// Proxy paths (`/p/...`, `/img/...`) that the catalog never answers.
pub fn refused_path(path: &str) -> (r: bool)
    ensures
        r == (is_prefix("/p/"@, path@) || is_prefix("/img/"@, path@)),
{
    starts_with(path, "/p/") || starts_with(path, "/img/")
}

/// Every SoundCloud request a catalog path plans names an absolute API path
/// (it starts with `/`), whatever the path's segments hold.
pub proof fn law_planned_paths_are_absolute(s: Seq<Seq<char>>, q: Seq<(Seq<char>, Seq<char>)>)
    ensures
        route_spec(s, q) matches PlanV::Fetch { path, .. } ==> path.len() > 0 && path[0] == '/',
{
    reveal_strlit("/tracks");
    reveal_strlit("/tracks/");
    reveal_strlit("/search/tracks");
    reveal_strlit("/search/playlists");
    reveal_strlit("/search/users");
    reveal_strlit("/playlists/");
    reveal_strlit("/users/");
    reveal_strlit("/resolve");
    reveal_strlit("/charts");
}

/// A user's playlists, followings and followers are fetched from the
/// SoundCloud list of the same name: the last path segment is carried over
/// unchanged, after the user's bare id, and the answer is paged.
pub proof fn law_user_lists_keep_their_name(
    id: Seq<char>,
    rel: Seq<char>,
    q: Seq<(Seq<char>, Seq<char>)>,
)
    requires
        rel == "playlists"@ || rel == "followings"@ || rel == "followers"@,
    ensures
        route_spec(seq!["users"@, id, rel], q) matches PlanV::Fetch { path, settle, .. } && path
            == "/users/"@ + after_last_colon(id) + "/"@ + rel && settle == Settle::Page,
{
    reveal_strlit("users");
    reveal_strlit("tracks");
    reveal_strlit("playlists");
    reveal_strlit("followings");
    reveal_strlit("followers");
    reveal_strlit("related");
    reveal_strlit("comments");
    reveal_strlit("favoriters");
    let s = seq!["users"@, id, rel];
    assert(s[0] == "users"@ && s[2] == rel);
    assert("users"@[0] != "tracks"@[0] && "users"@[0] != "playlists"@[0]);
    assert(rel[0] != "tracks"@[0] && rel[0] != "related"@[0] && rel[0] != "comments"@[0]);
    assert(rel != "favoriters"@) by {
        if rel == "followings"@ || rel == "followers"@ {
            assert(rel[1] != "favoriters"@[1]);
        } else {
            assert(rel[0] != "favoriters"@[0]);
        }
    }
    assert(!seg(s, 0, "tracks"@));
    assert(!seg(s, 0, "playlists"@));
    assert(!seg(s, 2, "tracks"@));
}

/// A successful SoundCloud answer settled as a page keeps its collection and
/// reports more pages when it names a next page; whether a failure would have
/// become an empty page makes no difference to a success.
pub proof fn law_paged_success_keeps_the_answer(v: JsonV, page: nat, size: nat)
    ensures
        settle_spec(Ok(v), Settle::PageOrEmpty, page, size) == settle_spec(
            Ok(v),
            Settle::Page,
            page,
            size,
        ),
        forall|c: JsonV|
            field(v, "collection"@) == Some(c) ==> (settle_spec(Ok(v), Settle::Page, page, size) matches Ok(
                d,
            ) && field(d, "collection"@) == Some(c)),
        forall|x: Seq<char>|
            field(v, "next_href"@) == Some(JsonV::Str(x)) && x.len() > 0 ==> (settle_spec(
                Ok(v),
                Settle::Page,
                page,
                size,
            ) matches Ok(d) && field(d, "has_more"@) == Some(JsonV::Bool(true))),
{
    reveal_strlit("collection");
    reveal_strlit("page");
    reveal_strlit("page_size");
    reveal_strlit("has_more");
    assert("collection"@[0] != "has_more"@[0]);
    assert("page"@[0] != "has_more"@[0]);
    assert("page_size"@[0] != "has_more"@[0]);
    let ms = seq![
        ("collection"@, collection_of(v)),
        ("page"@, JsonV::Num(decimal(page))),
        ("page_size"@, JsonV::Num(decimal(size))),
        ("has_more"@, JsonV::Bool(has_more_spec(v))),
    ];
    assert(page_doc(collection_of(v), page, size, has_more_spec(v)) == JsonV::Obj(ms));
    assert(ms.drop_first().drop_first().drop_first().drop_first() =~= Seq::<(Seq<char>, JsonV)>::empty());
    assert(ms.drop_first().drop_first().drop_first()[0] == ("has_more"@, JsonV::Bool(has_more_spec(v))));
    assert(assoc_first(ms.drop_first().drop_first().drop_first(), "has_more"@) == Some(JsonV::Bool(has_more_spec(v))));
    assert(ms.drop_first().drop_first()[0].0 == "page_size"@);
    assert(assoc_first(ms.drop_first().drop_first(), "has_more"@) == Some(JsonV::Bool(has_more_spec(v))));
    assert(ms.drop_first()[0].0 == "page"@);
    assert(assoc_first(ms.drop_first(), "has_more"@) == Some(JsonV::Bool(has_more_spec(v))));
    assert(assoc_first(ms, "has_more"@) == Some(JsonV::Bool(has_more_spec(v))));
}

/// Every outcome is answered with 200, 401, 404 or 502, and only a success
/// with 200.
pub proof fn law_replies_use_four_statuses(r: Result<JsonV, Seq<char>>)
    ensures
        ({
            let (status, _) = reply_spec(r);
            &&& status == 200 || status == 401 || status == 404 || status == 502
            &&& (status == 200) <==> r is Ok
        }),
{
}

proof fn lemma_split_acc_segments(s: Seq<char>, cur: Seq<char>, acc: Seq<Seq<char>>)
    requires
        forall|j: int| 0 <= j < cur.len() ==> cur[j] != '/',
        forall|i: int| 0 <= i < acc.len() ==> acc[i].len() > 0,
        forall|i: int, j: int| 0 <= i < acc.len() && 0 <= j < acc[i].len() ==> acc[i][j] != '/',
    ensures
        forall|i: int| 0 <= i < split_acc(s, cur, acc).len() ==> split_acc(s, cur, acc)[i].len() > 0,
        forall|i: int, j: int|
            0 <= i < split_acc(s, cur, acc).len() && 0 <= j < split_acc(s, cur, acc)[i].len()
                ==> split_acc(s, cur, acc)[i][j] != '/',
    decreases s.len(),
{
    if s.len() == 0 {
        let res = split_acc(s, cur, acc);
        assert forall|i: int| 0 <= i < res.len() implies res[i].len() > 0 && (forall|j: int|
            0 <= j < res[i].len() ==> res[i][j] != '/') by {
            if i < acc.len() {
                assert(res[i] == acc[i]);
            } else {
                assert(res[i] == cur);
            }
        }
    } else if s[0] == '/' {
        let acc2 = if cur.len() > 0 {
            acc.push(cur)
        } else {
            acc
        };
        assert forall|i: int| 0 <= i < acc2.len() implies acc2[i].len() > 0 && (forall|j: int|
            0 <= j < acc2[i].len() ==> acc2[i][j] != '/') by {
            if i < acc.len() {
                assert(acc2[i] == acc[i]);
            } else {
                assert(acc2[i] == cur);
            }
        }
        assert(split_acc(s, cur, acc) == split_acc(s.drop_first(), Seq::empty(), acc2));
        lemma_split_acc_segments(s.drop_first(), Seq::empty(), acc2);
    } else {
        let cur2 = cur.push(s[0]);
        assert forall|j: int| 0 <= j < cur2.len() implies cur2[j] != '/' by {
            if j < cur.len() {
                assert(cur2[j] == cur[j]);
            }
        }
        assert(split_acc(s, cur, acc) == split_acc(s.drop_first(), cur2, acc));
        lemma_split_acc_segments(s.drop_first(), cur2, acc);
    }
}

/// The segments of a path are never empty and never hold a `/`: routing
/// cannot be fooled by doubled or trailing slashes.
pub proof fn law_segments_are_clean(path: Seq<char>)
    ensures
        forall|i: int| 0 <= i < segments(path).len() ==> segments(path)[i].len() > 0,
        forall|i: int, j: int|
            0 <= i < segments(path).len() && 0 <= j < segments(path)[i].len() ==> segments(
                path,
            )[i][j] != '/',
{
    lemma_split_acc_segments(path, Seq::empty(), Seq::empty());
}

} // verus!
