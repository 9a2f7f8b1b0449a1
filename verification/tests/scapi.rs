use scnative_core::json::Json;
use scnative_core::scapi::{
    build_sc_url, extract_client_id_from_hydration, http_status_of, lyrics_from_search,
    LyricsFlow, LyricsStep,
    lyrics_lookup, playlist_cache_fresh, recent_client_id, CircuitBreaker, GetAction, GetFlow,
    GetStage, LyricsLookup,
};

#[test]
fn http_status_is_read_from_error_messages() {
    assert_eq!(http_status_of("HTTP 404"), Some(404));
    assert_eq!(http_status_of("HTTP 503 Service Unavailable"), Some(503));
    assert_eq!(http_status_of("HTTP x"), None);
    assert_eq!(http_status_of("HTTP 99999"), None);
    assert_eq!(http_status_of("request: HTTP 404"), None);
}

#[test]
fn soundcloud_urls_carry_the_client_id_and_encoded_params() {
    let params = vec![
        ("q".to_string(), "a b&c".to_string()),
        ("empty".to_string(), String::new()),
        ("limit".to_string(), "5".to_string()),
    ];
    assert_eq!(
        build_sc_url("/search/tracks", "CID", &params),
        "https://api-v2.soundcloud.com/search/tracks?client_id=CID&q=a%20b%26c&limit=5"
    );
    assert_eq!(
        build_sc_url("/tracks/1", "x", &[("u".to_string(), "é~".to_string())]),
        "https://api-v2.soundcloud.com/tracks/1?client_id=x&u=%C3%A9~"
    );
}

#[test]
fn client_id_is_scraped_from_hydration() {
    let html = r#"window.__sc_hydration = [{"hydratable": "apiClient", "data": {"id": "abc123", "isExpiring": false}}]"#;
    assert_eq!(extract_client_id_from_hydration(html), Some("abc123".to_string()));
    assert_eq!(extract_client_id_from_hydration("<html></html>"), None);
}

#[test]
fn the_breaker_opens_after_three_failures() {
    let mut b = CircuitBreaker::new();
    assert!(!b.in_cooldown(0));
    assert!(!b.note_failure(10));
    assert!(!b.note_failure(11));
    assert!(b.note_failure(12));
    assert!(b.in_cooldown(12));
    assert!(b.in_cooldown(311));
    assert!(!b.in_cooldown(312));
    b.note_success();
    assert!(!b.in_cooldown(100));
}

#[test]
fn a_request_retries_once_with_a_fresh_client_id() {
    let mut b = CircuitBreaker::new();
    let (mut f, a) = GetFlow::start("/tracks/1".into(), vec![], &b, 0);
    assert!(matches!(a, GetAction::ObtainClientId));
    match f.on_client_id(&mut b, Ok("A".into()), 0) {
        GetAction::Request(u) => assert_eq!(u, "https://api-v2.soundcloud.com/tracks/1?client_id=A"),
        _ => panic!(),
    }
    assert!(matches!(f.on_response(&mut b, Err("HTTP 500".into()), 0), GetAction::RefreshClientId));
    match f.on_refreshed(&mut b, Ok("B".into()), 0) {
        GetAction::Request(u) => assert!(u.ends_with("client_id=B")),
        _ => panic!(),
    }
    match f.on_response(&mut b, Err("HTTP 502".into()), 0) {
        GetAction::Fail(m) => assert_eq!(m, "HTTP 500; retry: HTTP 502"),
        _ => panic!(),
    }
    assert!(matches!(f.stage, GetStage::Finished));
}

#[test]
fn a_definitive_4xx_is_not_retried_and_does_not_trip_the_breaker() {
    let mut b = CircuitBreaker::new();
    for _ in 0..5 {
        let (mut f, _) = GetFlow::start("/x".into(), vec![], &b, 0);
        f.on_client_id(&mut b, Ok("A".into()), 0);
        match f.on_response(&mut b, Err("HTTP 404".into()), 0) {
            GetAction::Fail(m) => assert_eq!(m, "HTTP 404"),
            _ => panic!(),
        }
    }
    assert!(!b.in_cooldown(0));
}

#[test]
fn an_open_circuit_fails_requests_at_once() {
    let mut b = CircuitBreaker::new();
    for t in 0..3 {
        let (mut f, _) = GetFlow::start("/x".into(), vec![], &b, t);
        f.on_client_id(&mut b, Err("no id".into()), t);
    }
    let (f, a) = GetFlow::start("/x".into(), vec![], &b, 5);
    match a {
        GetAction::Fail(m) => assert_eq!(m, "scapi: circuit open (no client_id)"),
        _ => panic!(),
    }
    assert!(matches!(f.stage, GetStage::Finished));
}

#[test]
fn client_ids_and_playlists_are_reused_briefly() {
    assert_eq!(recent_client_id(Some(1_000), 20_000, Some("A".into())), Some("A".to_string()));
    assert_eq!(recent_client_id(Some(1_000), 31_000, Some("A".into())), None);
    assert_eq!(recent_client_id(None, 0, Some("A".into())), None);
    assert!(playlist_cache_fresh(0, 119_999));
    assert!(!playlist_cache_fresh(0, 120_000));
    assert!(playlist_cache_fresh(10, 5));
}

#[test]
fn lyrics_lookups_use_lrclib() {
    match lyrics_lookup(" Daft Punk ", "One More Time", Some(320_400)) {
        LyricsLookup::Lrclib { exact, search } => {
            assert_eq!(
                exact.as_deref(),
                Some("https://lrclib.net/api/get?artist_name=Daft%20Punk&track_name=One%20More%20Time&duration=320")
            );
            assert_eq!(
                search,
                "https://lrclib.net/api/search?artist_name=Daft%20Punk&track_name=One%20More%20Time"
            );
        }
        LyricsLookup::Nothing => panic!(),
    }
    match lyrics_lookup("A", "B", Some(10)) {
        LyricsLookup::Lrclib { exact, .. } => assert!(exact.unwrap().ends_with("duration=1")),
        _ => panic!(),
    }
    assert!(matches!(lyrics_lookup("  ", "B", None), LyricsLookup::Nothing));
    let first = Json::Arr(vec![Json::Obj(vec![("plainLyrics".into(), Json::Str("x".into()))])]);
    match lyrics_from_search(&first) {
        Json::Obj(m) => assert!(m.iter().any(|(k, v)| k == "plainText" && matches!(v, Json::Str(s) if s == "x"))),
        _ => panic!(),
    }
}

fn member<'a>(j: &'a Json, k: &str) -> Option<&'a Json> {
    match j {
        Json::Obj(ms) => ms.iter().find(|(key, _)| key == k).map(|(_, v)| v),
        _ => None,
    }
}

#[test]
fn an_empty_lyrics_search_answers_the_none_document() {
    for answer in [Json::Arr(vec![]), Json::Null] {
        let d = lyrics_from_search(&answer);
        assert!(matches!(member(&d, "source"), Some(Json::Str(s)) if s == "none"));
        assert!(member(&d, "languageConfidence").is_none());
    }
}

#[test]
fn lyrics_fall_back_from_the_exact_lookup_to_the_search() {
    let (mut f, step) = LyricsFlow::start("A", "B", Some(5000));
    assert!(matches!(step, LyricsStep::Fetch(ref u) if u.contains("/get?")));
    match f.on_answer(Err("lrclib HTTP 404 Not Found".to_string())) {
        LyricsStep::Fetch(u) => assert!(u.contains("/search?")),
        _ => panic!("expected the search"),
    }
    match f.on_answer(Ok(Json::Arr(vec![]))) {
        LyricsStep::Answer(d) => assert!(matches!(member(&d, "source"), Some(Json::Str(s)) if s == "none")),
        _ => panic!("expected an answer"),
    }
    let (mut g, _) = LyricsFlow::start("A", "B", None);
    assert!(matches!(g.on_answer(Err("x".to_string())), LyricsStep::Fail(ref e) if e == "x"));
    let (_, none) = LyricsFlow::start("", "B", None);
    assert!(matches!(none, LyricsStep::Answer(_)));
}
