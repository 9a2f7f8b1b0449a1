//! Shaping SoundCloud answers into the documents the app expects: paged
//! collections, placeholder users and playlists, lyrics, and the small text
//! helpers the catalog routes use.

use vstd::prelude::*;

use crate::json::{
    field, json_view, items_view, lemma_items_view, lemma_members_view, members_view, opt_json_view, str_of,
    u64_of, Json, JsonV,
};
use crate::text::{
    assoc_first, chars_of, concat, decimal, decimal_string, is_prefix, lemma_assoc_first_hit,
    lemma_assoc_first_step, parse_unsigned, parse_unsigned_chars, str_eq, string_of, strip_prefix,
    trim, trim_str,
};

verus! {

// ---------------------------------------------------------------------------
// Query strings
// ---------------------------------------------------------------------------

/// The query parameters of a request, in the order they were given; a key
/// occurs once.
pub struct Query {
    pub pairs: Vec<(String, String)>,
}

impl View for Query {
    type V = Seq<(Seq<char>, Seq<char>)>;

    open spec fn view(&self) -> Seq<(Seq<char>, Seq<char>)> {
        self.pairs@.map_values(|p: (String, String)| (p.0@, p.1@))
    }
}

pub open spec fn opt_str_view(o: Option<&String>) -> Option<Seq<char>> {
    match o {
        Some(s) => Some(s@),
        None => None,
    }
}

impl Query {
    /// The value of parameter `key`.
    pub fn get(&self, key: &str) -> (r: Option<&String>)
        ensures
            opt_str_view(r) == assoc_first(self@, key@),
    {
        let ghost q = self@;
        assert(q.subrange(0, q.len() as int) =~= q);
        let mut i: usize = 0;
        while i < self.pairs.len()
            invariant
                q == self@,
                i <= self.pairs@.len(),
                assoc_first(q, key@) == assoc_first(q.subrange(i as int, q.len() as int), key@),
            decreases self.pairs.len() - i,
        {
            assert(q[i as int] == (self.pairs@[i as int].0@, self.pairs@[i as int].1@));
            if str_eq(self.pairs[i].0.as_str(), key) {
                proof {
                    lemma_assoc_first_hit(q, i as int, key@);
                }
                return Some(&self.pairs[i].1);
            }
            proof {
                lemma_assoc_first_step(q, i as int, key@);
            }
            i = i + 1;
        }
        None
    }

    /// The value of parameter `key` when it is present and not empty.
    pub fn non_empty(&self, key: &str) -> (r: Option<&String>)
        ensures
            opt_str_view(r) == (match assoc_first(self@, key@) {
                Some(v) => if v.len() > 0 {
                    Some(v)
                } else {
                    None
                },
                None => None,
            }),
    {
        match self.get(key) {
            Some(v) => if v.as_str().is_empty() {
                None
            } else {
                Some(v)
            },
            None => None,
        }
    }
}

/// `s.parse::<usize>()`.
pub fn parse_usize(s: &str) -> (r: Option<usize>)
    ensures
        match r {
            Some(n) => parse_unsigned(s@, usize::MAX as nat) == Some(n as nat),
            None => parse_unsigned(s@, usize::MAX as nat) is None,
        },
{
    let cs = chars_of(s);
    match parse_unsigned_chars(cs.as_slice(), usize::MAX as u64) {
        Some(n) => Some(n as usize),
        None => None,
    }
}

/// `s.parse::<u64>()`.
pub fn parse_u64(s: &str) -> (r: Option<u64>)
    ensures
        match r {
            Some(n) => parse_unsigned(s@, u64::MAX as nat) == Some(n as nat),
            None => parse_unsigned(s@, u64::MAX as nat) is None,
        },
{
    let cs = chars_of(s);
    parse_unsigned_chars(cs.as_slice(), u64::MAX)
}

/// The number a parameter holds, or `default` when it is missing or not a
/// number.
pub open spec fn param_or(v: Option<Seq<char>>, default: nat) -> nat {
    match v {
        Some(t) => match parse_unsigned(t, usize::MAX as nat) {
            Some(n) => n,
            None => default,
        },
        None => default,
    }
}

/// The page (from 1) and page size (1 to 200, 50 by default; `page_size`,
/// else `limit`) that a query asks for.
pub open spec fn page_params_spec(q: Seq<(Seq<char>, Seq<char>)>) -> (nat, nat) {
    let page = param_or(assoc_first(q, "page"@), 1);
    let size_key = match assoc_first(q, "page_size"@) {
        Some(v) => Some(v),
        None => assoc_first(q, "limit"@),
    };
    let size = param_or(size_key, 50);
    (
        if page < 1 {
            1
        } else {
            page
        },
        if size < 1 {
            1
        } else if size > 200 {
            200
        } else {
            size
        },
    )
}

/// The page and page size a query asks for.
pub fn page_params(q: &Query) -> (r: (usize, usize))
    ensures
        (r.0 as nat, r.1 as nat) == page_params_spec(q@),
{
    let page = match q.get("page") {
        Some(p) => match parse_usize(p.as_str()) {
            Some(n) => n,
            None => 1,
        },
        None => 1,
    };
    let page = if page < 1 {
        1
    } else {
        page
    };
    let size_text = match q.get("page_size") {
        Some(v) => Some(v),
        None => q.get("limit"),
    };
    let size = match size_text {
        Some(v) => match parse_usize(v.as_str()) {
            Some(n) => n,
            None => 50,
        },
        None => 50,
    };
    let size = if size < 1 {
        1
    } else if size > 200 {
        200
    } else {
        size
    };
    (page, size)
}

// ---------------------------------------------------------------------------
// Identifiers and titles
// ---------------------------------------------------------------------------

/// The part of `s` after its last `:`; all of `s` when it has none.
pub open spec fn after_last_colon(s: Seq<char>) -> Seq<char>
    decreases s.len(),
{
    if s.len() == 0 {
        s
    } else if s.last() == ':' {
        Seq::empty()
    } else {
        after_last_colon(s.drop_last()).push(s.last())
    }
}

proof fn lemma_after_last_colon(s: Seq<char>, k: int)
    requires
        0 <= k <= s.len(),
        k == 0 || s[k - 1] == ':',
        forall|j: int| k <= j < s.len() ==> s[j] != ':',
    ensures
        after_last_colon(s) == s.subrange(k, s.len() as int),
    decreases s.len(),
{
    if s.len() > k {
        lemma_after_last_colon(s.drop_last(), k);
        assert(s.subrange(k, s.len() as int) =~= s.drop_last().subrange(k, s.len() - 1).push(
            s.last(),
        ));
    } else if s.len() == 0 {
    } else {
        assert(s.subrange(k, s.len() as int) =~= Seq::<char>::empty());
    }
}

/// The bare id of a SoundCloud URN (`soundcloud:tracks:123` gives `123`);
/// an id without `:` stays as it is.
pub fn strip_urn(id: &str) -> (r: String)
    ensures
        r@ == after_last_colon(id@),
{
    let cs = chars_of(id);
    let mut k = cs.len();
    while k > 0 && cs[k - 1] != ':'
        invariant
            cs@ == id@,
            k <= cs@.len(),
            forall|j: int| k <= j < cs@.len() ==> cs@[j] != ':',
        decreases k,
    {
        k = k - 1;
    }
    proof {
        lemma_after_last_colon(id@, k as int);
    }
    let mut out: Vec<char> = Vec::new();
    let mut i = k;
    while i < cs.len()
        invariant
            k <= i <= cs@.len(),
            out@ == cs@.subrange(k as int, i as int),
        decreases cs.len() - i,
    {
        out.push(cs[i]);
        i = i + 1;
        assert(out@ =~= cs@.subrange(k as int, i as int));
    }
    string_of(out.as_slice())
}

/// The title with a leading `<artist> - ` (or `<artist> – `) removed, when
/// what follows is not empty; both sides trimmed first.
pub open spec fn strip_artist_prefix_spec(title: Seq<char>, artist: Seq<char>) -> Seq<char> {
    let t = trim(title);
    let a = trim(artist);
    let p1 = a + " - "@;
    let p2 = a + " \u{2013} "@;
    let r1 = trim(t.subrange(p1.len() as int, t.len() as int));
    let r2 = trim(t.subrange(p2.len() as int, t.len() as int));
    if a.len() == 0 {
        t
    } else if is_prefix(p1, t) && r1.len() > 0 {
        r1
    } else if is_prefix(p2, t) && r2.len() > 0 {
        r2
    } else {
        t
    }
}

/// SoundCloud titles often lead with `<artist> - `; the lyrics index keys on
/// the bare title, so that prefix goes when it names the artist.
pub fn strip_artist_prefix(title: &str, artist: &str) -> (r: String)
    ensures
        r@ == strip_artist_prefix_spec(title@, artist@),
{
    let t = trim_str(title);
    let a = trim_str(artist);
    if a.as_str().is_empty() {
        return t;
    }
    let p1 = concat(a.as_str(), " - ");
    if let Some(rest) = strip_prefix(t.as_str(), p1.as_str()) {
        let rest = trim_str(rest.as_str());
        if !rest.as_str().is_empty() {
            return rest;
        }
    }
    let p2 = concat(a.as_str(), " \u{2013} ");
    if let Some(rest) = strip_prefix(t.as_str(), p2.as_str()) {
        let rest = trim_str(rest.as_str());
        if !rest.as_str().is_empty() {
            return rest;
        }
    }
    t
}

// ---------------------------------------------------------------------------
// Documents
// ---------------------------------------------------------------------------

/// A number document for `n`.
pub fn num(n: u64) -> (j: Json)
    ensures
        j@ == JsonV::Num(decimal(n as nat)),
{
    Json::Num(decimal_string(n))
}

/// A string document holding `s`.
pub fn text(s: &str) -> (j: Json)
    ensures
        j@ == JsonV::Str(s@),
{
    Json::Str(s.to_owned())
}

/// An object document with the given members, in order.
pub fn object(members: Vec<(String, Json)>) -> (j: Json)
    ensures
        j@ == JsonV::Obj(members_view(members@)),
{
    Json::Obj(members)
}

/// Adds member `k` with value `v` at the end of an object's members.
pub fn put(members: &mut Vec<(String, Json)>, k: &str, v: Json)
    ensures
        members_view(final(members)@) == members_view(old(members)@).push((k@, v@)),
{
    let ghost before = members@;
    members.push((k.to_owned(), v));
    assert(members@.drop_last() == before);
}

/// An object with the single member `k`.
pub fn object1(k: &str, v: Json) -> (j: Json)
    ensures
        j@ == JsonV::Obj(seq![(k@, v@)]),
{
    let mut m: Vec<(String, Json)> = Vec::new();
    put(&mut m, k, v);
    assert(members_view(m@) =~= seq![(k@, v@)]);
    Json::Obj(m)
}

/// An empty array document.
pub fn empty_array() -> (j: Json)
    ensures
        j@ == JsonV::Arr(Seq::empty()),
{
    let v: Vec<Json> = Vec::new();
    assert(items_view(v@) =~= Seq::<JsonV>::empty());
    Json::Arr(v)
}

/// The paged shape `{collection, page, page_size, has_more}`.
pub open spec fn page_doc(collection: JsonV, page: nat, page_size: nat, has_more: bool) -> JsonV {
    JsonV::Obj(
        seq![
            ("collection"@, collection),
            ("page"@, JsonV::Num(decimal(page))),
            ("page_size"@, JsonV::Num(decimal(page_size))),
            ("has_more"@, JsonV::Bool(has_more)),
        ],
    )
}

fn page_object(collection: Json, page: usize, page_size: usize, has_more: bool) -> (j: Json)
    ensures
        j@ == page_doc(collection@, page as nat, page_size as nat, has_more),
{
    let mut m: Vec<(String, Json)> = Vec::new();
    let ghost c = collection@;
    put(&mut m, "collection", collection);
    put(&mut m, "page", num(page as u64));
    put(&mut m, "page_size", num(page_size as u64));
    put(&mut m, "has_more", Json::Bool(has_more));
    assert(members_view(m@) =~= seq![
        ("collection"@, c),
        ("page"@, JsonV::Num(decimal(page as nat))),
        ("page_size"@, JsonV::Num(decimal(page_size as nat))),
        ("has_more"@, JsonV::Bool(has_more)),
    ]);
    Json::Obj(m)
}

/// More pages follow: `next_href` (else `next_offset`) is present, not null,
/// and not an empty string.
pub open spec fn has_more_spec(v: JsonV) -> bool {
    let next = match field(v, "next_href"@) {
        Some(x) => Some(x),
        None => field(v, "next_offset"@),
    };
    match next {
        Some(x) => !(x is Null) && match str_of(x) {
            Some(s) => s.len() > 0,
            None => true,
        },
        None => false,
    }
}

/// The `collection` of a SoundCloud answer, or an empty array.
pub open spec fn collection_of(v: JsonV) -> JsonV {
    match field(v, "collection"@) {
        Some(c) => c,
        None => JsonV::Arr(Seq::empty()),
    }
}

/// A SoundCloud collection answer (`{collection, next_href, ...}`) in the
/// app's paged shape.
pub fn wrap_page(value: &Json, page: usize, page_size: usize) -> (r: Json)
    ensures
        r@ == page_doc(collection_of(value@), page as nat, page_size as nat, has_more_spec(value@)),
{
    let next = match value.get("next_href") {
        Some(x) => Some(x),
        None => value.get("next_offset"),
    };
    let has_more = match next {
        Some(x) => !x.is_null() && match x.as_str() {
            Some(s) => !s.as_str().is_empty(),
            None => true,
        },
        None => false,
    };
    let collection = match value.get("collection") {
        Some(c) => c.duplicate(),
        None => empty_array(),
    };
    page_object(collection, page, page_size, has_more)
}

/// An empty page.
pub fn empty_page(page: usize, page_size: usize) -> (r: Json)
    ensures
        r@ == page_doc(JsonV::Arr(Seq::empty()), page as nat, page_size as nat, false),
{
    page_object(empty_array(), page, page_size, false)
}

/// The window of a list of `len` items that page `page` of size `size`
/// covers: `[lo, hi)`.
pub open spec fn page_window(len: nat, page: nat, size: nat) -> (nat, nat) {
    let offset = ((page - 1) * size) as nat;
    let lo = if offset < len {
        offset
    } else {
        len
    };
    let hi = if offset + size < len {
        (offset + size) as nat
    } else {
        len
    };
    (lo, hi)
}

/// The tracks of a playlist document, or none.
pub open spec fn tracks_of(v: JsonV) -> Seq<JsonV> {
    match field(v, "tracks"@) {
        Some(JsonV::Arr(items)) => items,
        _ => Seq::empty(),
    }
}

/// One page of a playlist's tracks, cut locally out of the whole playlist.
pub fn playlist_tracks_page(playlist: &Json, page: usize, size: usize) -> (r: Json)
    requires
        page >= 1,
        (page - 1) * size <= usize::MAX,
    ensures
        ({
            let all = tracks_of(playlist@);
            let (lo, hi) = page_window(all.len(), page as nat, size as nat);
            r@ == page_doc(
                JsonV::Arr(all.subrange(lo as int, hi as int)),
                page as nat,
                size as nat,
                hi < all.len(),
            )
        }),
{
    let empty: Vec<Json> = Vec::new();
    let all: &Vec<Json> = match playlist.get("tracks") {
        Some(t) => match t.as_array() {
            Some(a) => a,
            None => &empty,
        },
        None => &empty,
    };
    let ghost av = items_view(all@);
    proof {
        lemma_items_view(all@);
        assert(av == tracks_of(playlist@)) by {
            assert(items_view(empty@) =~= Seq::<JsonV>::empty());
        }
    }
    let offset = (page - 1) * size;
    let lo = if offset < all.len() {
        offset
    } else {
        all.len()
    };
    let hi = if size < all.len() - lo {
        lo + size
    } else {
        all.len()
    };
    let mut slice: Vec<Json> = Vec::new();
    let mut i = lo;
    while i < hi
        invariant
            lo <= i <= hi <= all@.len(),
            av == items_view(all@),
            av.len() == all@.len(),
            items_view(slice@) == av.subrange(lo as int, i as int),
        decreases hi - i,
    {
        let c = all[i].duplicate();
        let ghost before = slice@;
        slice.push(c);
        assert(slice@.drop_last() == before);
        assert(av[i as int] == all@[i as int]@) by {
            lemma_items_view(all@);
        }
        i = i + 1;
        assert(items_view(slice@) =~= av.subrange(lo as int, i as int));
    }
    proof {
        lemma_items_view(slice@);
        assert(slice@.len() == hi - lo);
    }
    let has_more = offset + slice.len() < all.len();
    page_object(Json::Arr(slice), page, size, has_more)
}

/// A string member as the app reads it: the text, or `null` for anything
/// that is not a string.
pub open spec fn str_or_null(v: Option<JsonV>) -> JsonV {
    match v {
        Some(JsonV::Str(s)) => JsonV::Str(s),
        _ => JsonV::Null,
    }
}

/// A number member as the app reads it: the number, or `null`.
pub open spec fn num_or_null(v: Option<JsonV>) -> JsonV {
    match v {
        Some(JsonV::Num(n)) => JsonV::Num(n),
        _ => JsonV::Null,
    }
}

fn string_member(v: Option<&Json>) -> (r: Json)
    ensures
        r@ == str_or_null(opt_json_view(v)),
{
    match v {
        Some(x) => match x.as_str() {
            Some(s) => Json::Str(s.clone()),
            None => Json::Null,
        },
        None => Json::Null,
    }
}

fn number_member(v: Option<&Json>) -> (r: Json)
    ensures
        r@ == num_or_null(opt_json_view(v)),
{
    match v {
        Some(Json::Num(n)) => Json::Num(n.clone()),
        _ => Json::Null,
    }
}

/// The lyrics document of an LRCLIB record. `languageConfidence` keeps the
/// number as written; reading it as a floating-point number is left to the
/// caller.
pub open spec fn lyrics_doc(v: JsonV) -> JsonV {
    JsonV::Obj(
        seq![
            ("scTrackId"@, JsonV::Str(Seq::empty())),
            ("syncedLrc"@, str_or_null(field(v, "syncedLyrics"@))),
            ("plainText"@, str_or_null(field(v, "plainLyrics"@))),
            ("source"@, JsonV::Str("lrclib"@)),
            ("language"@, str_or_null(field(v, "language"@))),
            ("languageConfidence"@, num_or_null(field(v, "languageConfidence"@))),
        ],
    )
}

/// An LRCLIB record in the app's lyrics shape.
pub fn lyrics_from_lrclib(value: &Json) -> (r: Json)
    ensures
        r@ == lyrics_doc(value@),
{
    let mut m: Vec<(String, Json)> = Vec::new();
    put(&mut m, "scTrackId", text(""));
    put(&mut m, "syncedLrc", string_member(value.get("syncedLyrics")));
    put(&mut m, "plainText", string_member(value.get("plainLyrics")));
    put(&mut m, "source", text("lrclib"));
    put(&mut m, "language", string_member(value.get("language")));
    put(&mut m, "languageConfidence", number_member(value.get("languageConfidence")));
    proof {
        reveal_strlit("");
        assert(""@ =~= Seq::<char>::empty());
    }
    assert(members_view(m@) =~= seq![
        ("scTrackId"@, JsonV::Str(Seq::empty())),
        ("syncedLrc"@, str_or_null(field(value@, "syncedLyrics"@))),
        ("plainText"@, str_or_null(field(value@, "plainLyrics"@))),
        ("source"@, JsonV::Str("lrclib"@)),
        ("language"@, str_or_null(field(value@, "language"@))),
        ("languageConfidence"@, num_or_null(field(value@, "languageConfidence"@))),
    ]);
    Json::Obj(m)
}

/// The lyrics document when there are none.
pub open spec fn lyrics_none_doc() -> JsonV {
    JsonV::Obj(
        seq![
            ("scTrackId"@, JsonV::Str(Seq::empty())),
            ("syncedLrc"@, JsonV::Null),
            ("plainText"@, JsonV::Null),
            ("source"@, JsonV::Str("none"@)),
            ("language"@, JsonV::Null),
        ],
    )
}

/// The lyrics document when there are none: the app shows its "not found"
/// panel for it.
pub fn lyrics_none() -> (r: Json)
    ensures
        r@ == lyrics_none_doc(),
{
    let mut m: Vec<(String, Json)> = Vec::new();
    put(&mut m, "scTrackId", text(""));
    put(&mut m, "syncedLrc", Json::Null);
    put(&mut m, "plainText", Json::Null);
    put(&mut m, "source", text("none"));
    put(&mut m, "language", Json::Null);
    proof {
        reveal_strlit("");
        assert(""@ =~= Seq::<char>::empty());
    }
    assert(members_view(m@) =~= seq![
        ("scTrackId"@, JsonV::Str(Seq::empty())),
        ("syncedLrc"@, JsonV::Null),
        ("plainText"@, JsonV::Null),
        ("source"@, JsonV::Str("none"@)),
        ("language"@, JsonV::Null),
    ]);
    Json::Obj(m)
}

/// The placeholder user an artist page shows when SoundCloud is unreachable.
pub open spec fn default_user_doc() -> JsonV {
    let zero = JsonV::Num(decimal(0));
    JsonV::Obj(
        seq![
            ("id"@, JsonV::Null),
            ("kind"@, JsonV::Str("user"@)),
            ("urn"@, JsonV::Str(Seq::empty())),
            ("username"@, JsonV::Str(Seq::empty())),
            ("full_name"@, JsonV::Str(Seq::empty())),
            ("permalink"@, JsonV::Str(Seq::empty())),
            ("permalink_url"@, JsonV::Null),
            ("avatar_url"@, JsonV::Null),
            ("description"@, JsonV::Null),
            ("country"@, JsonV::Null),
            ("city"@, JsonV::Null),
            ("website"@, JsonV::Null),
            ("followers_count"@, zero),
            ("followings_count"@, zero),
            ("track_count"@, zero),
            ("playlist_count"@, zero),
            ("likes_count"@, zero),
            ("verified"@, JsonV::Bool(false)),
            ("created_at"@, JsonV::Null),
            ("web_profiles"@, JsonV::Arr(Seq::empty())),
        ],
    )
}

/// The placeholder user an artist page shows when SoundCloud is unreachable.
pub fn default_user() -> (r: Json)
    ensures
        r@ == default_user_doc(),
{
    let mut m: Vec<(String, Json)> = Vec::new();
    put(&mut m, "id", Json::Null);
    put(&mut m, "kind", text("user"));
    put(&mut m, "urn", text(""));
    put(&mut m, "username", text(""));
    put(&mut m, "full_name", text(""));
    put(&mut m, "permalink", text(""));
    put(&mut m, "permalink_url", Json::Null);
    put(&mut m, "avatar_url", Json::Null);
    put(&mut m, "description", Json::Null);
    put(&mut m, "country", Json::Null);
    put(&mut m, "city", Json::Null);
    put(&mut m, "website", Json::Null);
    put(&mut m, "followers_count", num(0));
    put(&mut m, "followings_count", num(0));
    put(&mut m, "track_count", num(0));
    put(&mut m, "playlist_count", num(0));
    put(&mut m, "likes_count", num(0));
    put(&mut m, "verified", Json::Bool(false));
    put(&mut m, "created_at", Json::Null);
    put(&mut m, "web_profiles", empty_array());
    proof {
        reveal_strlit("");
        assert(""@ =~= Seq::<char>::empty());
    }
    assert(members_view(m@) =~= seq![
        ("id"@, JsonV::Null),
        ("kind"@, JsonV::Str("user"@)),
        ("urn"@, JsonV::Str(Seq::empty())),
        ("username"@, JsonV::Str(Seq::empty())),
        ("full_name"@, JsonV::Str(Seq::empty())),
        ("permalink"@, JsonV::Str(Seq::empty())),
        ("permalink_url"@, JsonV::Null),
        ("avatar_url"@, JsonV::Null),
        ("description"@, JsonV::Null),
        ("country"@, JsonV::Null),
        ("city"@, JsonV::Null),
        ("website"@, JsonV::Null),
        ("followers_count"@, JsonV::Num(decimal(0))),
        ("followings_count"@, JsonV::Num(decimal(0))),
        ("track_count"@, JsonV::Num(decimal(0))),
        ("playlist_count"@, JsonV::Num(decimal(0))),
        ("likes_count"@, JsonV::Num(decimal(0))),
        ("verified"@, JsonV::Bool(false)),
        ("created_at"@, JsonV::Null),
        ("web_profiles"@, JsonV::Arr(Seq::empty())),
    ]);
    Json::Obj(m)
}

/// The placeholder playlist an album page shows when SoundCloud is
/// unreachable.
pub open spec fn default_playlist_doc() -> JsonV {
    let zero = JsonV::Num(decimal(0));
    JsonV::Obj(
        seq![
            ("id"@, JsonV::Null),
            ("kind"@, JsonV::Str("playlist"@)),
            ("urn"@, JsonV::Str(Seq::empty())),
            ("title"@, JsonV::Str(Seq::empty())),
            ("description"@, JsonV::Null),
            ("artwork_url"@, JsonV::Null),
            ("duration"@, zero),
            ("track_count"@, zero),
            ("tracks"@, JsonV::Arr(Seq::empty())),
            ("user"@, default_user_doc()),
            ("permalink_url"@, JsonV::Null),
            ("created_at"@, JsonV::Null),
            ("release_date"@, JsonV::Null),
            ("display_date"@, JsonV::Null),
            ("genre"@, JsonV::Str(Seq::empty())),
            ("tag_list"@, JsonV::Str(Seq::empty())),
            ("likes_count"@, zero),
            ("playback_count"@, zero),
            ("public"@, JsonV::Bool(true)),
            ("sharing"@, JsonV::Str("public"@)),
        ],
    )
}

/// The placeholder playlist an album page shows when SoundCloud is
/// unreachable.
pub fn default_playlist() -> (r: Json)
    ensures
        r@ == default_playlist_doc(),
{
    let mut m: Vec<(String, Json)> = Vec::new();
    put(&mut m, "id", Json::Null);
    put(&mut m, "kind", text("playlist"));
    put(&mut m, "urn", text(""));
    put(&mut m, "title", text(""));
    put(&mut m, "description", Json::Null);
    put(&mut m, "artwork_url", Json::Null);
    put(&mut m, "duration", num(0));
    put(&mut m, "track_count", num(0));
    put(&mut m, "tracks", empty_array());
    put(&mut m, "user", default_user());
    put(&mut m, "permalink_url", Json::Null);
    put(&mut m, "created_at", Json::Null);
    put(&mut m, "release_date", Json::Null);
    put(&mut m, "display_date", Json::Null);
    put(&mut m, "genre", text(""));
    put(&mut m, "tag_list", text(""));
    put(&mut m, "likes_count", num(0));
    put(&mut m, "playback_count", num(0));
    put(&mut m, "public", Json::Bool(true));
    put(&mut m, "sharing", text("public"));
    proof {
        reveal_strlit("");
        assert(""@ =~= Seq::<char>::empty());
    }
    assert(members_view(m@) =~= seq![
        ("id"@, JsonV::Null),
        ("kind"@, JsonV::Str("playlist"@)),
        ("urn"@, JsonV::Str(Seq::empty())),
        ("title"@, JsonV::Str(Seq::empty())),
        ("description"@, JsonV::Null),
        ("artwork_url"@, JsonV::Null),
        ("duration"@, JsonV::Num(decimal(0))),
        ("track_count"@, JsonV::Num(decimal(0))),
        ("tracks"@, JsonV::Arr(Seq::empty())),
        ("user"@, default_user_doc()),
        ("permalink_url"@, JsonV::Null),
        ("created_at"@, JsonV::Null),
        ("release_date"@, JsonV::Null),
        ("display_date"@, JsonV::Null),
        ("genre"@, JsonV::Str(Seq::empty())),
        ("tag_list"@, JsonV::Str(Seq::empty())),
        ("likes_count"@, JsonV::Num(decimal(0))),
        ("playback_count"@, JsonV::Num(decimal(0))),
        ("public"@, JsonV::Bool(true)),
        ("sharing"@, JsonV::Str("public"@)),
    ]);
    Json::Obj(m)
}

/// The hero item of a chart answer: the first entry's `track`, or the first
/// entry itself.
pub open spec fn featured_data(v: JsonV) -> JsonV {
    match field(v, "collection"@) {
        Some(JsonV::Arr(items)) => if items.len() > 0 {
            match field(items[0], "track"@) {
                Some(t) => t,
                None => items[0],
            }
        } else {
            JsonV::Null
        },
        _ => JsonV::Null,
    }
}

/// The featured document of a trending-chart answer.
pub open spec fn featured_doc(v: JsonV) -> JsonV {
    JsonV::Obj(seq![("type"@, JsonV::Str("track"@)), ("data"@, featured_data(v))])
}

/// The trending chart's first track as the app's featured hero.
pub fn featured_from_chart(chart: &Json) -> (r: Json)
    ensures
        r@ == featured_doc(chart@),
{
    let data = match chart.get("collection") {
        Some(c) => match c.as_array() {
            Some(items) => if items.len() > 0 {
                proof {
                    lemma_items_view(items@);
                }
                let item = &items[0];
                match item.get("track") {
                    Some(t) => t.duplicate(),
                    None => item.duplicate(),
                }
            } else {
                Json::Null
            },
            None => Json::Null,
        },
        None => Json::Null,
    };
    let mut m: Vec<(String, Json)> = Vec::new();
    put(&mut m, "type", text("track"));
    put(&mut m, "data", data);
    assert(members_view(m@) =~= seq![("type"@, JsonV::Str("track"@)), ("data"@, featured_data(chart@))]);
    Json::Obj(m)
}

/// The artist a track document names: `user.username`, else
/// `publisher_metadata.artist`, else nothing.
pub open spec fn track_artist(track: JsonV) -> Seq<char> {
    let by_user = match field(track, "user"@) {
        Some(u) => match field(u, "username"@) {
            Some(n) => str_of(n),
            None => None,
        },
        None => None,
    };
    let by_publisher = match field(track, "publisher_metadata"@) {
        Some(p) => match field(p, "artist"@) {
            Some(n) => str_of(n),
            None => None,
        },
        None => None,
    };
    match by_user {
        Some(a) => a,
        None => match by_publisher {
            Some(a) => a,
            None => Seq::empty(),
        },
    }
}

/// The title a track document names, or nothing.
pub open spec fn track_title(track: JsonV) -> Seq<char> {
    match field(track, "title"@) {
        Some(t) => match str_of(t) {
            Some(s) => s,
            None => Seq::empty(),
        },
        None => Seq::empty(),
    }
}

/// The duration a track document names, in milliseconds.
pub open spec fn track_duration(track: JsonV) -> Option<nat> {
    match field(track, "duration"@) {
        Some(d) => u64_of(d),
        None => None,
    }
}

fn str_at(v: &Json, outer: &str, inner: &str) -> (r: Option<String>)
    ensures
        opt_seq(r) == (match field(v@, outer@) {
            Some(u) => match field(u, inner@) {
                Some(n) => str_of(n),
                None => None,
            },
            None => None,
        }),
{
    match v.get(outer) {
        Some(u) => match u.get(inner) {
            Some(n) => match n.as_str() {
                Some(s) => Some(s.clone()),
                None => None,
            },
            None => None,
        },
        None => None,
    }
}

pub open spec fn opt_seq(o: Option<String>) -> Option<Seq<char>> {
    match o {
        Some(s) => Some(s@),
        None => None,
    }
}

/// What a lyrics lookup for a SoundCloud track asks for.
pub struct LyricsQuery {
    pub artist: String,
    pub title: String,
    pub duration_ms: Option<u64>,
}

/// The artist, bare title and duration of a SoundCloud track document, as
/// the lyrics lookup for it asks for them.
pub fn lyrics_query_for_track(track: &Json) -> (q: LyricsQuery)
    ensures
        q.artist@ == track_artist(track@),
        q.title@ == strip_artist_prefix_spec(track_title(track@), track_artist(track@)),
        match q.duration_ms {
            Some(d) => track_duration(track@) == Some(d as nat),
            None => track_duration(track@) is None,
        },
{
    let artist = match str_at(track, "user", "username") {
        Some(a) => a,
        None => match str_at(track, "publisher_metadata", "artist") {
            Some(a) => a,
            None => String::new(),
        },
    };
    let raw_title = match track.get("title") {
        Some(t) => match t.as_str() {
            Some(s) => s.clone(),
            None => String::new(),
        },
        None => String::new(),
    };
    let title = strip_artist_prefix(raw_title.as_str(), artist.as_str());
    let duration_ms = match track.get("duration") {
        Some(d) => d.as_u64(),
        None => None,
    };
    LyricsQuery { artist, title, duration_ms }
}

/// The index of the first member named `key`, or the number of members when
/// there is none.
pub open spec fn first_index(ms: Seq<(Seq<char>, JsonV)>, key: Seq<char>) -> nat
    decreases ms.len(),
{
    if ms.len() == 0 {
        0
    } else if ms[0].0 == key {
        0
    } else {
        first_index(ms.drop_first(), key) + 1
    }
}

/// The members with member `key` set to `value`: replaced in place when
/// present, added at the end otherwise.
pub open spec fn with_member(
    ms: Seq<(Seq<char>, JsonV)>,
    key: Seq<char>,
    value: JsonV,
) -> Seq<(Seq<char>, JsonV)> {
    let i = first_index(ms, key);
    if i < ms.len() {
        ms.update(i as int, (key, value))
    } else {
        ms.push((key, value))
    }
}

proof fn lemma_first_index(ms: Seq<(Seq<char>, JsonV)>, key: Seq<char>, i: int)
    requires
        0 <= i <= ms.len(),
        forall|j: int| 0 <= j < i ==> ms[j].0 != key,
        i == ms.len() || ms[i].0 == key,
    ensures
        first_index(ms, key) == i,
    decreases ms.len(),
{
    if ms.len() > 0 && i > 0 {
        assert forall|j: int| 0 <= j < i - 1 implies ms.drop_first()[j].0 != key by {
            assert(ms.drop_first()[j] == ms[j + 1]);
        }
        lemma_first_index(ms.drop_first(), key, i - 1);
    }
}

/// The object `doc` with member `key` set to `value` (as `doc[key] = value`).
#[verifier::loop_isolation(false)]
pub fn set_member(doc: Json, key: &str, value: Json) -> (r: Json)
    requires
        doc@ is Obj,
    ensures
        r@ == JsonV::Obj(with_member(doc@->Obj_0, key@, value@)),
{
    let ghost vv = value@;
    let ghost d0 = doc@;
    match doc {
        Json::Obj(mut ms) => {
            let ghost ms0 = members_view(ms@);
            assert(d0->Obj_0 == ms0);
            proof {
                lemma_members_view(ms@);
            }
            let mut i: usize = 0;
            while i < ms.len()
                invariant
                    i <= ms@.len(),
                    vv == value@,
                    d0->Obj_0 == ms0,
                    ms0 == members_view(ms@),
                    ms0.len() == ms@.len(),
                    forall|j: int| 0 <= j < i ==> ms0[j].0 != key@,
                decreases ms.len() - i,
            {
                proof {
                    lemma_members_view(ms@);
                }
                if str_eq(ms[i].0.as_str(), key) {
                    let ghost before = ms@;
                    let k = ms[i].0.clone();
                    ms.set(i, (k, value));
                    proof {
                        lemma_first_index(ms0, key@, i as int);
                        lemma_members_view(ms@);
                        lemma_members_view(before);
                        assert forall|j: int| 0 <= j < ms@.len() implies #[trigger] members_view(
                            ms@,
                        )[j] == ms0.update(i as int, (key@, vv))[j] by {
                            if j != i {
                                assert(ms@[j] == before[j]);
                                assert(members_view(before)[j] == ms0[j]);
                            } else {
                                assert(ms@[j].0@ == key@);
                                assert(json_view(ms@[j].1) == vv);
                            }
                        }
                        assert(members_view(ms@) =~= ms0.update(i as int, (key@, vv)));
                        assert(with_member(ms0, key@, vv) == ms0.update(i as int, (key@, vv)));
                    }
                    let r = Json::Obj(ms);
                    assert(r@ == JsonV::Obj(members_view(ms@)));
                    assert(r@ == JsonV::Obj(with_member(d0->Obj_0, key@, vv)));
                    return r;
                }
                i = i + 1;
            }
            proof {
                lemma_first_index(ms0, key@, ms0.len() as int);
            }
            let ghost before = ms@;
            ms.push((key.to_owned(), value));
            proof {
                assert(ms@.drop_last() == before);
            }
            Json::Obj(ms)
        },
        _ => Json::Null,
    }
}

// ---------------------------------------------------------------------------
// Laws
// ---------------------------------------------------------------------------

proof fn lemma_after_last_colon_has_no_colon(s: Seq<char>)
    ensures
        forall|i: int| 0 <= i < after_last_colon(s).len() ==> after_last_colon(s)[i] != ':',
        is_suffix_of(after_last_colon(s), s),
    decreases s.len(),
{
    if s.len() > 0 && s.last() != ':' {
        lemma_after_last_colon_has_no_colon(s.drop_last());
        let t = after_last_colon(s.drop_last());
        assert forall|i: int| 0 <= i < t.push(s.last()).len() implies t.push(s.last())[i] != ':' by {
            if i < t.len() {
                assert(t.push(s.last())[i] == t[i]);
            }
        }
        assert(s.subrange(s.len() - t.len() - 1, s.len() as int) =~= s.drop_last().subrange(
            s.drop_last().len() - t.len(),
            s.drop_last().len() as int,
        ).push(s.last()));
    } else if s.len() > 0 {
        assert(s.subrange(s.len() as int, s.len() as int) =~= Seq::<char>::empty());
    } else {
        assert(s.subrange(0, 0) =~= s);
    }
}

/// `t` is a suffix of `s`.
pub open spec fn is_suffix_of(t: Seq<char>, s: Seq<char>) -> bool {
    t.len() <= s.len() && s.subrange(s.len() - t.len(), s.len() as int) == t
}

/// A bare id holds no `:`, is the tail of the URN it came from, and stays as
/// it is when stripped again.
pub proof fn law_strip_urn_gives_a_bare_id(s: Seq<char>)
    ensures
        forall|i: int| 0 <= i < after_last_colon(s).len() ==> after_last_colon(s)[i] != ':',
        is_suffix_of(after_last_colon(s), s),
        after_last_colon(after_last_colon(s)) == after_last_colon(s),
{
    lemma_after_last_colon_has_no_colon(s);
    let t = after_last_colon(s);
    lemma_after_last_colon(t, 0);
    assert(t.subrange(0, t.len() as int) =~= t);
}

/// Every query gives a page of at least 1 and a page size from 1 to 200.
pub proof fn law_page_params_are_in_range(q: Seq<(Seq<char>, Seq<char>)>)
    ensures
        page_params_spec(q).0 >= 1,
        1 <= page_params_spec(q).1 <= 200,
{
}

} // verus!
