use scnative_core::edge::{
    audio_tier_order, current_tier, direct_infrastructure_headers, edge_config, expand_upstreams,
    hop_ok, inherit_table, is_direct, note, plan, audio_plan, relay_hosts, relay_hosts_over,
    relay_label, relay_pool, relay_table, EdgeState, Hop, ResponseHead, Tier, DIRECT_FAIL_THRESHOLD,
    REVALIDATE_MS,
};

fn hosts(origin: &str) -> Vec<String> {
    relay_hosts_over(origin, &[])
}

#[test]
fn every_inherit_pair_is_a_domain_we_route() {
    for (origin, source) in inherit_table() {
        assert!(
            !hosts(origin).is_empty(),
            "origin {origin} наследует вердикт, но сам не в RELAYS"
        );
        assert!(
            !hosts(source).is_empty(),
            "{origin} наследует у {source}, которого нет в RELAYS"
        );
    }
}

#[test]
fn soundcloud_only_build_never_emits_relay_hosts() {
    assert!(relay_pool().is_empty());
    assert!(relay_hosts("api.scnative.space").is_empty());
}

#[test]
fn the_transport_ladder_has_no_worker_rung_left() {
    assert_eq!(
        [Tier::Direct, Tier::Relay].map(|t| t as u8).len(),
        2,
        "Tier должен остаться двухступенчатым"
    );
}

#[test]
fn no_legacy_domain_survives_in_the_relay_table() {
    for (origin, label) in relay_table() {
        assert!(!origin.contains("scdinternal"), "legacy origin {origin}");
        assert!(!label.contains('.'), "label {label} must be a bare service");
    }
}

#[test]
fn html_gateway_5xx_is_a_direct_transport_error() {
    assert!(direct_infrastructure_headers(503, "text/html; charset=utf-8"));
    assert!(direct_infrastructure_headers(504, "TEXT/HTML"));
    assert!(!direct_infrastructure_headers(500, "text/html"));
    assert!(!direct_infrastructure_headers(503, "application/json"));
}

#[test]
fn audio_prefers_direct_when_unknown_or_due_for_revalidation() {
    assert_eq!(audio_tier_order(None, false), [Tier::Direct, Tier::Relay]);
    assert_eq!(
        audio_tier_order(Some(Tier::Relay), true),
        [Tier::Direct, Tier::Relay]
    );
}

#[test]
fn audio_uses_sticky_fallback_first_but_keeps_direct_as_backup() {
    assert_eq!(
        audio_tier_order(Some(Tier::Relay), false),
        [Tier::Relay, Tier::Direct]
    );
    assert_eq!(
        audio_tier_order(Some(Tier::Relay), false),
        [Tier::Relay, Tier::Direct]
    );
}

// ---------------------------------------------------------------------------

const ORIGIN: &str = "api-v2.soundcloud.com";
const URL: &str = "https://API-V2.soundcloud.com/tracks/1?x=1";

#[test]
fn two_direct_failures_switch_an_origin_to_the_relay() {
    let mut s = EdgeState::new();
    assert!(!note(&mut s, ORIGIN, Tier::Direct, false, 1_000));
    assert_eq!(s.get(ORIGIN).unwrap().tier, Tier::Direct);
    assert_eq!(s.get(ORIGIN).unwrap().direct_fails, 1);
    assert!(note(&mut s, ORIGIN, Tier::Direct, false, 2_000));
    let st = s.get(ORIGIN).unwrap();
    assert_eq!(st.tier, Tier::Relay);
    assert_eq!(st.direct_fails, DIRECT_FAIL_THRESHOLD);
    assert_eq!(st.revalidate_at, 2_000 + REVALIDATE_MS);
    assert_eq!(current_tier(&s, URL), Tier::Relay);
    assert!(!is_direct(&s, URL));
}

#[test]
fn relay_verdict_sticks_through_direct_failures() {
    let mut s = EdgeState::new();
    note(&mut s, ORIGIN, Tier::Relay, true, 10);
    assert!(!note(&mut s, ORIGIN, Tier::Direct, false, 20));
    assert_eq!(s.get(ORIGIN).unwrap().tier, Tier::Relay);
}

#[test]
fn a_direct_success_resets_the_failures() {
    let mut s = EdgeState::new();
    note(&mut s, ORIGIN, Tier::Direct, false, 10);
    note(&mut s, ORIGIN, Tier::Direct, false, 20);
    assert!(note(&mut s, ORIGIN, Tier::Direct, true, 30));
    let st = s.get(ORIGIN).unwrap();
    assert_eq!(st.tier, Tier::Direct);
    assert_eq!(st.direct_fails, 0);
    assert_eq!(st.revalidate_at, 30 + REVALIDATE_MS);
}

#[test]
fn repeated_relay_success_is_not_rewritten() {
    let mut s = EdgeState::new();
    assert!(note(&mut s, ORIGIN, Tier::Relay, true, 10));
    assert!(!note(&mut s, ORIGIN, Tier::Relay, true, 20));
    assert_eq!(s.get(ORIGIN).unwrap().revalidate_at, 10 + REVALIDATE_MS);
}

#[test]
fn outcomes_without_origin_or_on_relay_failures_change_nothing() {
    let mut s = EdgeState::new();
    assert!(!note(&mut s, "", Tier::Direct, false, 10));
    assert!(!note(&mut s, ORIGIN, Tier::Relay, false, 10));
    assert!(s.get("").is_none());
    assert!(s.get(ORIGIN).is_none());
}

#[test]
fn storage_follows_the_stream_verdict() {
    let mut s = EdgeState::new();
    note(&mut s, "stream.scnative.space", Tier::Relay, true, 5);
    assert_eq!(
        s.resolved_state("storage.scnative.space").unwrap().tier,
        Tier::Relay
    );
    assert_eq!(
        current_tier(&s, "https://storage.scnative.space/a.mp3"),
        Tier::Relay
    );
    assert!(s.resolved_state("storage-star.scnative.space").is_none());
}

#[test]
fn every_request_goes_direct_in_this_build() {
    let s = EdgeState::new();
    assert!(plan(&s, URL, 0).is_empty());
    let hops = audio_plan(&s, URL, 0);
    assert_eq!(hops.len(), 1);
    assert_eq!(hops[0].url, URL);
    assert_eq!(hops[0].tier, Tier::Direct);
    assert_eq!(hops[0].origin, ORIGIN);
    let bad = audio_plan(&s, "not a url", 0);
    assert_eq!(bad.len(), 1);
    assert_eq!(bad[0].origin, "");
}

#[test]
fn upstreams_expand_one_hop_each() {
    let s = EdgeState::new();
    let ups = vec!["direct".to_string(), URL.to_string(), "nope".to_string()];
    let hops = expand_upstreams(&s, &ups, 0);
    assert_eq!(hops.len(), 3);
    assert_eq!(hops[0].url, "direct");
    assert_eq!(hops[0].origin, "");
    assert_eq!(hops[1].origin, ORIGIN);
    assert_eq!(hops[2].url, "nope");
    assert_eq!(hops[2].origin, "");
    assert!(hops.iter().all(|h| h.tier == Tier::Direct));
}

#[test]
fn hop_checks_record_failures() {
    let mut s = EdgeState::new();
    let direct = Hop { url: URL.to_string(), tier: Tier::Direct, origin: ORIGIN.to_string() };
    let page = ResponseHead { status: 502, content_type: "Text/HTML".to_string() };
    assert!(!hop_ok(&mut s, &direct, &page, 1).0);
    assert_eq!(s.get(ORIGIN).unwrap().direct_fails, 1);
    let fine = ResponseHead { status: 200, content_type: "application/json".to_string() };
    assert!(hop_ok(&mut s, &direct, &fine, 2).0);
    assert_eq!(s.get(ORIGIN).unwrap().direct_fails, 1);
    let relay = Hop { url: URL.to_string(), tier: Tier::Relay, origin: ORIGIN.to_string() };
    assert!(!hop_ok(&mut s, &relay, &ResponseHead { status: 421, content_type: String::new() }, 3).0);
    assert!(hop_ok(&mut s, &relay, &ResponseHead { status: 500, content_type: String::new() }, 3).0);
    assert_eq!(s.get(ORIGIN).unwrap().tier, Tier::Direct);
}

#[test]
fn hop_notes_and_labels() {
    let mut s = EdgeState::new();
    let hop = Hop { url: URL.to_string(), tier: Tier::Relay, origin: ORIGIN.to_string() };
    assert_eq!(hop.tier_label(), "relay");
    assert!(hop.note(&mut s, true, 7));
    assert_eq!(s.get(ORIGIN).unwrap().tier, Tier::Relay);
    let d = Hop { url: URL.to_string(), tier: Tier::Direct, origin: String::new() };
    assert_eq!(d.tier_label(), "direct");
}

#[test]
fn persisted_verdicts_load_back() {
    let mut s = EdgeState::new();
    note(&mut s, "a.example", Tier::Relay, true, 1);
    note(&mut s, "b.example", Tier::Direct, true, 1);
    let saved = s.persisted_tiers();
    assert_eq!(saved, vec![("a.example".to_string(), Tier::Relay)]);
    let mut fresh = EdgeState::new();
    fresh.load_persisted(&saved, 100);
    let st = fresh.get("a.example").unwrap();
    assert_eq!(st.tier, Tier::Relay);
    assert_eq!(st.direct_fails, DIRECT_FAIL_THRESHOLD);
    assert_eq!(st.revalidate_at, 100 + REVALIDATE_MS);
    assert!(fresh.get("b.example").is_none());
    fresh.load_persisted(&[("c.example".to_string(), Tier::Direct)], 100);
    assert!(fresh.get("c.example").is_none());
}

#[test]
fn relay_hosts_over_a_pool_name_each_node() {
    let pool = vec!["n1".to_string(), "n2".to_string()];
    assert_eq!(
        relay_hosts_over("stream.scnative.space", &pool),
        vec![
            "stream.n1.relay.scnative.space".to_string(),
            "stream.n2.relay.scnative.space".to_string()
        ]
    );
    assert!(relay_hosts_over("example.com", &pool).is_empty());
    assert_eq!(
        relay_hosts_over("api.scnative.space", &[]),
        vec!["api.relay.scnative.space".to_string()]
    );
    assert!(relay_hosts_over("example.com", &[]).is_empty());
    assert_eq!(relay_label("s3.scnative.space"), Some("s3"));
    assert_eq!(relay_label("s3.example"), None);
}

#[test]
fn edge_config_lists_every_origin_and_hint() {
    let mut s = EdgeState::new();
    note(&mut s, ORIGIN, Tier::Relay, true, 1);
    let c = edge_config(&s);
    assert_eq!(c.relays.len(), 9);
    assert_eq!(c.relays[0].0, "api.scnative.space");
    assert!(c.relays.iter().all(|(_, hosts)| hosts.is_empty()));
    assert_eq!(c.hints, vec![(ORIGIN.to_string(), Tier::Relay)]);
    assert_eq!(c.revalidate_ms, 600_000);
}

#[test]
fn a_second_gateway_page_flips_the_origin_and_asks_to_persist() {
    let mut s = EdgeState::new();
    let direct = Hop { url: URL.to_string(), tier: Tier::Direct, origin: ORIGIN.to_string() };
    let page = ResponseHead { status: 503, content_type: "text/html".to_string() };
    assert_eq!(hop_ok(&mut s, &direct, &page, 1), (false, false));
    assert_eq!(hop_ok(&mut s, &direct, &page, 2), (false, true));
    assert_eq!(s.get(ORIGIN).unwrap().tier, Tier::Relay);
}
