use scnative_core::json::Json;
use scnative_core::yt::{
    bin_name, command_line, download_args, download_asset_for, download_template,
    is_download_temp, is_produced_file, is_stale_leftover, is_youtube_url, parse_search,
    percent_text, ready, redirect_target, release_url, search_query, search_spec_for,
    stderr_tail, urn_for, video_id_ok, video_meta, EnsureAction, EnsureFlow, YtDlp,
    is_cached_size, resolve_command, AcquireAction, AcquireFlow, FetchFailure, FetchFlow,
    FetchStep, MIN_AUDIO_SIZE, youtube_parts_ok,
};

fn s(x: &str) -> Json {
    Json::Str(x.to_string())
}

fn obj(ms: Vec<(&str, Json)>) -> Json {
    Json::Obj(ms.into_iter().map(|(k, v)| (k.to_string(), v)).collect())
}

#[test]
fn video_ids_are_checked_before_they_reach_a_file_name() {
    assert!(video_id_ok("dQw4w9WgXcQ"));
    assert!(video_id_ok("a-_"));
    assert!(!video_id_ok(""));
    assert!(!video_id_ok("../etc"));
    assert!(!video_id_ok("abcdefghijklmnopqrstu"));
    assert!(!video_id_ok("é"));
    assert_eq!(urn_for("abc"), "youtube:tracks:abc");
    let r = ready("/c/x.mp3".to_string());
    assert_eq!(r.path, "/c/x.mp3");
    assert_eq!(r.duration_ms, None);
}

#[test]
fn only_youtube_links_reach_ytdlp() {
    assert!(is_youtube_url(" https://www.youtube.com/watch?v=x "));
    assert!(is_youtube_url("http://youtu.be/x"));
    assert!(is_youtube_url("https://music.youtube.com/watch?v=x"));
    assert!(is_youtube_url("https://www.youtube-nocookie.com/embed/x"));
    assert!(!is_youtube_url("ftp://youtube.com/x"));
    assert!(!is_youtube_url("https://notyoutube.com/x"));
    assert!(!is_youtube_url("youtube.com/watch"));
}

#[test]
fn searches_are_gated_and_specified() {
    assert_eq!(search_query("  a "), None);
    assert_eq!(search_query(" ab "), Some("ab".to_string()));
    assert_eq!(search_query("é"), Some("é".to_string()));
    assert_eq!(search_spec_for("lofi", 0), "ytsearch1:lofi");
    assert_eq!(search_spec_for("lofi", 24), "ytsearch24:lofi");
    assert_eq!(search_spec_for("lofi", 99), "ytsearch50:lofi");
}

#[test]
fn search_dumps_keep_entries_with_id_and_title() {
    let doc = obj(vec![(
        "entries",
        Json::Arr(vec![
            obj(vec![("id", s("a")), ("title", s("A")), ("duration", Json::Num("61.5".into())), ("uploader", s("U"))]),
            obj(vec![("id", s("b"))]),
            obj(vec![("id", s("c")), ("title", s("C")), ("channel", s("Ch")), ("channel_id", s("ci"))]),
        ]),
    )]);
    let hits = parse_search(&doc);
    assert_eq!(hits.len(), 2);
    assert_eq!(hits[0].id, "a");
    assert_eq!(hits[0].duration_secs.as_deref(), Some("61.5"));
    assert_eq!(hits[0].channel.as_deref(), Some("U"));
    assert_eq!(hits[1].channel.as_deref(), Some("Ch"));
    assert_eq!(hits[1].channel_id.as_deref(), Some("ci"));
    assert!(parse_search(&Json::Null).is_empty());
}

#[test]
fn video_documents_give_metadata() {
    let doc = obj(vec![
        ("id", s("vid")),
        ("thumbnails", Json::Arr(vec![obj(vec![("url", s("small"))]), obj(vec![("url", s("big"))]), obj(vec![])])),
    ]);
    let m = video_meta(&doc, Some(1000)).ok().unwrap();
    assert_eq!(m.title, "vid");
    assert_eq!(m.thumbnail, "big");
    assert_eq!(m.url, "https://www.youtube.com/watch?v=vid");
    assert_eq!(m.duration_ms, Some(1000));
    let bare = video_meta(&obj(vec![("id", s("v"))]), None).ok().unwrap();
    assert_eq!(bare.thumbnail, "https://i.ytimg.com/vi/v/hqdefault.jpg");
    assert_eq!(video_meta(&obj(vec![]), None).err().unwrap(), "resolve: no video id");
}

#[test]
fn command_lines_are_built_from_the_binary() {
    let plain = YtDlp { path: "/bin/yt-dlp".into(), managed: false, python: None };
    assert_eq!(command_line(&plain), ("/bin/yt-dlp".to_string(), vec![]));
    let zip = YtDlp { path: "/w/yt-dlp".into(), managed: true, python: Some("/py3".into()) };
    assert_eq!(command_line(&zip), ("/py3".to_string(), vec!["/w/yt-dlp".to_string()]));
    assert_eq!(bin_name(true), "yt-dlp.exe");
    assert_eq!(bin_name(false), "yt-dlp");
    assert_eq!(download_template("id1"), "yt_dl_id1.%(ext)s");
    let a = download_args("id1", "/w/yt_dl_id1.%(ext)s", true, Some("/ff"), Some("x=y"));
    assert_eq!(a[0], "--extractor-args");
    assert_eq!(a[2], "-f");
    assert_eq!(a[10], "/ff");
    assert_eq!(a.last().unwrap(), "https://www.youtube.com/watch?v=id1");
    let b = download_args("id1", "o", false, None, None);
    assert_eq!(b[1], "bestaudio[ext=m4a]/bestaudio/best");
    assert_eq!(b.len(), 9);
}

#[test]
fn work_files_are_recognised() {
    assert!(is_download_temp("yt_dl_abc.webm.part", "abc"));
    assert!(is_produced_file("yt_dl_abc.mp3", "abc"));
    assert!(!is_produced_file("yt_dl_abc.webm.part", "abc"));
    assert!(!is_produced_file("yt_dl_abcd.mp3", "abc"));
    assert!(is_stale_leftover("yt-dlp.download"));
    assert!(is_stale_leftover("yt_dl_x.m4a"));
    assert!(!is_stale_leftover("yt-dlp"));
}

#[test]
fn assets_and_redirects() {
    assert_eq!(download_asset_for(true, false, false, false, None), Some(("yt-dlp.exe", None)));
    assert_eq!(download_asset_for(false, true, false, true, Some("/py".into())), Some(("yt-dlp", Some("/py".to_string()))));
    assert_eq!(download_asset_for(false, true, false, true, None), Some(("yt-dlp_macos", None)));
    assert_eq!(download_asset_for(false, false, true, true, None), Some(("yt-dlp_linux_aarch64", None)));
    assert_eq!(download_asset_for(false, false, true, false, None), Some(("yt-dlp_linux", None)));
    assert_eq!(download_asset_for(false, false, false, false, None), None);
    assert_eq!(release_url("yt-dlp"), "https://github.com/yt-dlp/yt-dlp/releases/latest/download/yt-dlp");
    assert_eq!(redirect_target("https://objects.example/x"), "https://objects.example/x");
    assert_eq!(redirect_target("/yt-dlp/x"), "https://github.com/yt-dlp/x");
}

#[test]
fn output_lines_are_read() {
    assert_eq!(percent_text("[download]  42.1% of 3.00MiB"), Some("42.1".to_string()));
    assert_eq!(percent_text("[download] 100%"), Some("100".to_string()));
    assert_eq!(percent_text("[ExtractAudio] 5%"), None);
    assert_eq!(percent_text("[download] Destination: x"), None);
    assert_eq!(stderr_tail("a\nb\r\nc\n"), "c | b");
    assert_eq!(stderr_tail("only"), "only");
    assert_eq!(stderr_tail(""), "");
}

#[test]
fn a_failing_managed_binary_is_refreshed_then_android_is_tried() {
    let (mut f, a) = EnsureFlow::start(true);
    assert_eq!(a, EnsureAction::Run { android: false, announce: None });
    assert_eq!(f.on_run(false), EnsureAction::Refresh);
    assert!(matches!(f.on_refreshed(true), EnsureAction::Run { android: false, .. }));
    assert!(matches!(f.on_run(false), EnsureAction::Run { android: true, .. }));
    assert_eq!(f.on_run(false), EnsureAction::Finish { ok: false });
    let (mut g, _) = EnsureFlow::start(false);
    assert!(matches!(g.on_run(false), EnsureAction::Run { android: true, .. }));
    assert_eq!(g.on_run(true), EnsureAction::Finish { ok: true });
}

#[test]
fn pasted_links_are_gated_before_resolving() {
    let args = resolve_command("https://youtu.be/abc").unwrap();
    assert_eq!(args.last().unwrap(), "https://youtu.be/abc");
    assert_eq!(args[0], "-J");
    assert_eq!(resolve_command("https://example.com/x"), Err("not a youtube url".to_string()));
}

#[test]
fn small_cached_files_are_not_audio() {
    assert_eq!(MIN_AUDIO_SIZE, 8192);
    assert!(!is_cached_size(8191));
    assert!(is_cached_size(8192));
}

#[test]
fn release_fetch_follows_redirects_up_to_the_bound() {
    let (mut f, first) = FetchFlow::start("yt-dlp_linux");
    assert_eq!(
        first,
        FetchStep::Request {
            url: "https://github.com/yt-dlp/yt-dlp/releases/latest/download/yt-dlp_linux".to_string()
        }
    );
    assert_eq!(
        f.on_response(302, Some("/yt-dlp/yt-dlp/releases/download/v1/yt-dlp_linux")),
        FetchStep::Request {
            url: "https://github.com/yt-dlp/yt-dlp/releases/download/v1/yt-dlp_linux".to_string()
        }
    );
    assert_eq!(f.on_response(200, None), FetchStep::Save);

    let (mut g, _) = FetchFlow::start("a");
    assert_eq!(
        g.on_response(301, None),
        FetchStep::Fail { why: FetchFailure::RedirectWithoutLocation { code: 301 } }
    );

    let (mut h, _) = FetchFlow::start("a");
    for _ in 0..9 {
        assert!(matches!(h.on_response(302, Some("https://x.org/a")), FetchStep::Request { .. }));
    }
    assert_eq!(
        h.on_response(302, Some("https://x.org/a")),
        FetchStep::Fail { why: FetchFailure::TooManyRedirects }
    );

    let (mut k, _) = FetchFlow::start("a");
    assert_eq!(k.on_response(404, None), FetchStep::Fail { why: FetchFailure::Status { code: 404 } });
}

#[test]
fn acquisition_tries_system_then_bundled_then_download() {
    let (mut f, a) = AcquireFlow::start();
    assert_eq!(a, AcquireAction::ProbeSystem);
    assert_eq!(f.on_result(false), AcquireAction::ProbeBundled);
    assert_eq!(f.on_result(false), AcquireAction::Download);
    assert_eq!(f.on_result(false), AcquireAction::Unavailable);

    let (mut g, _) = AcquireFlow::start();
    assert_eq!(g.on_result(true), AcquireAction::UseSystem);

    let (mut h, _) = AcquireFlow::start();
    h.on_result(false);
    assert_eq!(h.on_result(true), AcquireAction::UseBundled);
}

#[test]
fn parsed_url_parts_are_gated() {
    let p = |s: &str| Some(s.to_string());
    assert!(youtube_parts_ok(p("https"), p("www.youtube.com")));
    assert!(youtube_parts_ok(p("http"), p("m.youtube.com")));
    assert!(youtube_parts_ok(p("https"), p("www.youtu.be")));
    assert!(!youtube_parts_ok(p("https"), p("www.www.youtube-nocookie.org")));
    assert!(!youtube_parts_ok(p("ftp"), p("youtube.com")));
    assert!(!youtube_parts_ok(None, p("youtube.com")));
    assert!(!youtube_parts_ok(p("https"), None));
    assert!(!youtube_parts_ok(p("https"), p("evilyoutube.com")));
}
