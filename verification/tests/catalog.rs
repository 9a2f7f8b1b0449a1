use scnative_core::catalog::{
    default_playlist, default_user, empty_page, featured_from_chart, lyrics_from_lrclib,
    lyrics_none, lyrics_query_for_track, page_params, playlist_tracks_page, set_member,
    strip_artist_prefix, strip_urn, wrap_page, Query,
};
use scnative_core::json::Json;
use scnative_core::routes::{
    path_segments, plan_route, refused_path, reply_for, settle, strip_ids, track_lyrics_reply,
    plan_route_checked, CatalogPlan, Settle,
};

fn s(x: &str) -> Json {
    Json::Str(x.to_string())
}

fn n(x: &str) -> Json {
    Json::Num(x.to_string())
}

fn obj(ms: Vec<(&str, Json)>) -> Json {
    Json::Obj(ms.into_iter().map(|(k, v)| (k.to_string(), v)).collect())
}

fn q(pairs: &[(&str, &str)]) -> Query {
    Query { pairs: pairs.iter().map(|(k, v)| (k.to_string(), v.to_string())).collect() }
}

fn member<'a>(j: &'a Json, k: &str) -> Option<&'a Json> {
    match j {
        Json::Obj(ms) => ms.iter().find(|(key, _)| key == k).map(|(_, v)| v),
        _ => None,
    }
}

fn as_str(j: Option<&Json>) -> Option<&str> {
    match j {
        Some(Json::Str(s)) => Some(s.as_str()),
        _ => None,
    }
}

fn as_num(j: Option<&Json>) -> Option<&str> {
    match j {
        Some(Json::Num(s)) => Some(s.as_str()),
        _ => None,
    }
}

#[test]
fn page_params_defaults_and_clamps() {
    assert_eq!(page_params(&q(&[])), (1, 50));
    assert_eq!(page_params(&q(&[("page", "3"), ("page_size", "500")])), (3, 200));
    assert_eq!(page_params(&q(&[("page", "0"), ("limit", "0")])), (1, 1));
    assert_eq!(page_params(&q(&[("page", "x"), ("limit", "7")])), (1, 7));
    assert_eq!(page_params(&q(&[("page_size", "bad"), ("limit", "7")])), (1, 50));
    assert_eq!(page_params(&q(&[("page", "+4")])), (4, 50));
}

#[test]
fn urns_lose_their_prefix() {
    assert_eq!(strip_urn("soundcloud:tracks:123"), "123");
    assert_eq!(strip_urn("123"), "123");
    assert_eq!(strip_urn("a:"), "");
    assert_eq!(strip_ids("soundcloud:tracks:1,2,x:3"), "1,2,3");
    assert_eq!(strip_ids(""), "");
}

#[test]
fn artist_prefix_is_dropped_from_titles() {
    assert_eq!(strip_artist_prefix("  Artist - Song ", "Artist"), "Song");
    assert_eq!(strip_artist_prefix("Artist \u{2013} Song", " Artist "), "Song");
    assert_eq!(strip_artist_prefix("Artist - ", "Artist"), "Artist -");
    assert_eq!(strip_artist_prefix("Other - Song", "Artist"), "Other - Song");
    assert_eq!(strip_artist_prefix(" Song ", ""), "Song");
}

#[test]
fn collections_become_pages() {
    let v = obj(vec![("collection", Json::Arr(vec![n("1")])), ("next_href", s("https://x"))]);
    let p = wrap_page(&v, 2, 10);
    assert_eq!(member(&p, "collection").map(|c| matches!(c, Json::Arr(a) if a.len() == 1)), Some(true));
    assert_eq!(as_num(member(&p, "page")), Some("2"));
    assert_eq!(as_num(member(&p, "page_size")), Some("10"));
    assert!(matches!(member(&p, "has_more"), Some(Json::Bool(true))));
    let last = obj(vec![("collection", Json::Arr(vec![])), ("next_href", Json::Null)]);
    assert!(matches!(member(&wrap_page(&last, 1, 1), "has_more"), Some(Json::Bool(false))));
    let empty_href = obj(vec![("next_href", s(""))]);
    assert!(matches!(member(&wrap_page(&empty_href, 1, 1), "has_more"), Some(Json::Bool(false))));
    let by_offset = obj(vec![("next_offset", n("50"))]);
    assert!(matches!(member(&wrap_page(&by_offset, 1, 1), "has_more"), Some(Json::Bool(true))));
    let e = empty_page(4, 5);
    assert!(matches!(member(&e, "collection"), Some(Json::Arr(a)) if a.is_empty()));
    assert!(matches!(member(&e, "has_more"), Some(Json::Bool(false))));
}

#[test]
fn playlist_tracks_are_paged_locally() {
    let tracks: Vec<Json> = (0..5).map(|i| n(&i.to_string())).collect();
    let pl = obj(vec![("tracks", Json::Arr(tracks))]);
    let p = playlist_tracks_page(&pl, 2, 2);
    match member(&p, "collection") {
        Some(Json::Arr(a)) => {
            assert_eq!(a.len(), 2);
            assert_eq!(as_num(Some(&a[0])), Some("2"));
        }
        _ => panic!("collection"),
    }
    assert!(matches!(member(&p, "has_more"), Some(Json::Bool(true))));
    let last = playlist_tracks_page(&pl, 3, 2);
    assert!(matches!(member(&last, "has_more"), Some(Json::Bool(false))));
    let beyond = playlist_tracks_page(&pl, 9, 2);
    assert!(matches!(member(&beyond, "collection"), Some(Json::Arr(a)) if a.is_empty()));
}

#[test]
fn placeholders_have_the_app_shape() {
    let u = default_user();
    assert_eq!(as_str(member(&u, "kind")), Some("user"));
    assert_eq!(as_num(member(&u, "followers_count")), Some("0"));
    let p = default_playlist();
    assert_eq!(as_str(member(&p, "kind")), Some("playlist"));
    assert_eq!(as_str(member(&p, "sharing")), Some("public"));
    assert!(matches!(member(&p, "user"), Some(Json::Obj(_))));
    let l = lyrics_none();
    assert_eq!(as_str(member(&l, "source")), Some("none"));
    assert!(matches!(member(&l, "plainText"), Some(Json::Null)));
}

#[test]
fn lrclib_records_map_onto_lyrics() {
    let rec = obj(vec![
        ("syncedLyrics", s("[00:01] la")),
        ("plainLyrics", n("5")),
        ("language", s("en")),
        ("languageConfidence", n("0.9")),
    ]);
    let l = lyrics_from_lrclib(&rec);
    assert_eq!(as_str(member(&l, "syncedLrc")), Some("[00:01] la"));
    assert!(matches!(member(&l, "plainText"), Some(Json::Null)));
    assert_eq!(as_str(member(&l, "source")), Some("lrclib"));
    assert_eq!(as_num(member(&l, "languageConfidence")), Some("0.9"));
    let withid = set_member(l, "scTrackId", s("42"));
    assert_eq!(as_str(member(&withid, "scTrackId")), Some("42"));
}

#[test]
fn tracks_give_their_lyrics_query() {
    let t = obj(vec![
        ("title", s("Band - Tune")),
        ("duration", n("215000")),
        ("user", obj(vec![("username", s("Band"))])),
    ]);
    let lq = lyrics_query_for_track(&t);
    assert_eq!(lq.artist, "Band");
    assert_eq!(lq.title, "Tune");
    assert_eq!(lq.duration_ms, Some(215000));
    let t2 = obj(vec![
        ("publisher_metadata", obj(vec![("artist", s("Pub"))])),
        ("duration", n("1.5")),
    ]);
    let lq2 = lyrics_query_for_track(&t2);
    assert_eq!(lq2.artist, "Pub");
    assert_eq!(lq2.title, "");
    assert_eq!(lq2.duration_ms, None);
}

#[test]
fn featured_takes_the_first_chart_track() {
    let chart = obj(vec![(
        "collection",
        Json::Arr(vec![obj(vec![("score", n("1")), ("track", s("T"))])]),
    )]);
    let f = featured_from_chart(&chart);
    assert_eq!(as_str(member(&f, "type")), Some("track"));
    assert_eq!(as_str(member(&f, "data")), Some("T"));
    let none = featured_from_chart(&obj(vec![]));
    assert!(matches!(member(&none, "data"), Some(Json::Null)));
}

#[test]
fn paths_split_into_segments() {
    assert_eq!(path_segments("//tracks//1/"), vec!["tracks".to_string(), "1".to_string()]);
    assert!(path_segments("///").is_empty());
}

fn fetch(p: CatalogPlan) -> (String, Vec<(String, String)>, Settle) {
    match p {
        CatalogPlan::Fetch { path, params, settle, .. } => (path, params, settle),
        _ => panic!("not a fetch"),
    }
}

#[test]
fn catalog_paths_plan_soundcloud_requests() {
    let (path, params, how) = fetch(plan_route("/tracks", &q(&[("ids", "soundcloud:tracks:1,2")])));
    assert_eq!(path, "/tracks");
    assert_eq!(params, vec![("ids".to_string(), "1,2".to_string())]);
    assert_eq!(how, Settle::AsIs);
    let (path, params, how) = fetch(plan_route("/tracks", &q(&[("q", "lofi"), ("page", "2"), ("limit", "10")])));
    assert_eq!(path, "/search/tracks");
    assert_eq!(params[0], ("q".to_string(), "lofi".to_string()));
    assert_eq!(params[2], ("offset".to_string(), "10".to_string()));
    assert_eq!(params[4], ("access".to_string(), "playable".to_string()));
    assert_eq!(how, Settle::Page);
    let (path, _, how) = fetch(plan_route("/tracks/soundcloud:tracks:9/comments", &q(&[])));
    assert_eq!(path, "/tracks/9/comments");
    assert_eq!(how, Settle::PageOrEmpty);
    let (path, _, how) = fetch(plan_route("/artists/5", &q(&[])));
    assert_eq!(path, "/users/5");
    assert_eq!(how, Settle::OrDefaultUser);
    let (path, _, how) = fetch(plan_route("/users/5/likes/tracks", &q(&[])));
    assert_eq!(path, "/users/5/likes");
    assert_eq!(how, Settle::Page);
    let (path, params, how) = fetch(plan_route("/featured", &q(&[])));
    assert_eq!(path, "/charts");
    assert_eq!(params.len(), 4);
    assert_eq!(how, Settle::Featured);
}

#[test]
fn catalog_paths_answer_locally_or_refuse() {
    assert!(matches!(plan_route("/", &q(&[])), CatalogPlan::Answer(_)));
    assert!(matches!(plan_route("/me/aura", &q(&[])), CatalogPlan::Answer(_)));
    assert!(matches!(plan_route("/me/anything/else", &q(&[])), CatalogPlan::Answer(Json::Obj(m)) if m.is_empty()));
    match plan_route("/playlists", &q(&[])) {
        CatalogPlan::Refuse(m) => assert_eq!(m, "playlists list requires ?q="),
        _ => panic!(),
    }
    match plan_route("/nothing/here", &q(&[])) {
        CatalogPlan::Refuse(m) => assert_eq!(m, "not found"),
        _ => panic!(),
    }
    match plan_route("/playlists/p:7/tracks", &q(&[("page", "2")])) {
        CatalogPlan::PlaylistTracks { id, page, size } => {
            assert_eq!(id, "7");
            assert_eq!((page, size), (2, 50));
        }
        _ => panic!(),
    }
    match plan_route("/lyrics/search", &q(&[("artist", "A"), ("duration", "9")])) {
        CatalogPlan::Lyrics { artist, title, duration_ms } => {
            assert_eq!(artist, "A");
            assert_eq!(title, "");
            assert_eq!(duration_ms, Some(9));
        }
        _ => panic!(),
    }
    match plan_route("/lyrics/x:1", &q(&[])) {
        CatalogPlan::TrackLyrics { id } => assert_eq!(id, "1"),
        _ => panic!(),
    }
}

#[test]
fn outcomes_settle_into_replies() {
    let failed: Result<Json, String> = Err("HTTP 404".to_string());
    assert!(matches!(settle(Err("x".into()), Settle::PageOrEmpty, 1, 2), Ok(Json::Obj(_))));
    assert!(matches!(settle(Err("x".into()), Settle::AsIs, 1, 2), Err(_)));
    match settle(Err("x".into()), Settle::OrEmptyCollection, 1, 2) {
        Ok(j) => assert!(matches!(member(&j, "collection"), Some(Json::Arr(a)) if a.is_empty())),
        Err(_) => panic!(),
    }
    assert_eq!(reply_for(failed).0, 404);
    assert_eq!(reply_for(Err("not found".into())).0, 404);
    assert_eq!(reply_for(Err("requires login".into())).0, 401);
    assert_eq!(reply_for(Err("users list requires ?q=".into())).0, 502);
    assert_eq!(reply_for(Err("request: timeout".into())).0, 502);
    assert_eq!(reply_for(Ok(Json::Null)).0, 200);
    let (_, body) = reply_for(Err("boom".into()));
    assert_eq!(as_str(member(&body, "message")), Some("boom"));
    assert!(refused_path("/p/abc"));
    assert!(refused_path("/img/x"));
    assert!(!refused_path("/tracks"));
}

#[test]
fn track_lyrics_are_tagged_with_the_track_id() {
    let found = obj(vec![("scTrackId", s("")), ("source", s("lrclib"))]);
    let r = track_lyrics_reply(Ok(found), "42");
    assert_eq!(as_str(member(&r, "scTrackId")), Some("42"));
    assert_eq!(as_str(member(&r, "source")), Some("lrclib"));
    let none = track_lyrics_reply(Err("HTTP 404".to_string()), "7");
    assert_eq!(as_str(member(&none, "scTrackId")), Some("7"));
    assert_eq!(as_str(member(&none, "source")), Some("none"));
}

#[test]
fn pages_past_the_offset_range_are_refused_only_where_an_offset_is_sent() {
    let huge = q(&[("page", "18446744073709551615")]);
    assert!(plan_route_checked("/tracks", &huge).is_none());
    assert!(plan_route_checked("/tracks/5/comments", &huge).is_none());
    assert!(matches!(plan_route_checked("/tracks/5", &huge), Some(CatalogPlan::Fetch { .. })));
    let fine = q(&[("page", "3"), ("limit", "10")]);
    match plan_route_checked("/tracks", &fine) {
        Some(CatalogPlan::Fetch { path, params, .. }) => {
            assert_eq!(path, "/tracks");
            assert!(params.iter().any(|(k, v)| k == "offset" && v == "20"));
        }
        _ => panic!("expected a fetch"),
    }
}
