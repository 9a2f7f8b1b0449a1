//! YouTube playback on top of a managed `yt-dlp`: which input may reach
//! `yt-dlp`, the command lines it is run with, and reading its JSON dumps and
//! output.

use vstd::prelude::*;

use crate::catalog::{opt_seq, strip_urn};
use crate::json::{field, items_view, lemma_items_view, opt_json_view, str_of, Json, JsonV};
use crate::outside::{opt_view, url_host, url_host_of, url_scheme, url_scheme_of};
use crate::text::{
    chars_of, concat, decimal, decimal_string, ends_with, is_prefix, is_suffix, occurs, starts_with,
    str_eq, string_of, strip_prefix, trim, trim_str, contains,
};

verus! {

/// What the player gets for a playable YouTube video: the audio file.
pub struct YtAudioReady {
    pub path: String,
    pub duration_ms: Option<u64>,
}

/// Metadata of one video (a pasted link).
pub struct YtVideoMeta {
    pub id: String,
    pub title: String,
    pub duration_ms: Option<u64>,
    pub channel: Option<String>,
    pub channel_id: Option<String>,
    pub thumbnail: String,
    pub url: String,
}

/// One search result.
pub struct YtSearchItem {
    pub id: String,
    pub title: String,
    pub duration_ms: Option<u64>,
    pub channel: Option<String>,
    pub channel_id: Option<String>,
}

/// A runnable `yt-dlp`. `managed` marks a binary this app downloaded (and may
/// download again); `python` is set when `path` is a zipapp run through an
/// interpreter.
#[derive(Clone)]
pub struct YtDlp {
    pub path: String,
    pub managed: bool,
    pub python: Option<String>,
}

// ---------------------------------------------------------------------------
// Ids and names
// ---------------------------------------------------------------------------

/// A character a video id may hold: `[A-Za-z0-9_-]`.
pub open spec fn id_char(c: char) -> bool {
    ('0' <= c <= '9') || ('a' <= c <= 'z') || ('A' <= c <= 'Z') || c == '-' || c == '_'
}

/// A video id: 1 to 20 characters out of `[A-Za-z0-9_-]`.
pub open spec fn video_id_ok_spec(id: Seq<char>) -> bool {
    0 < id.len() <= 20 && forall|i: int| 0 <= i < id.len() ==> id_char(#[trigger] id[i])
}

/// YouTube ids are `[A-Za-z0-9_-]{11}`, with a little slack for future ones.
/// The id ends up in a file name, so nothing else may pass.
pub fn video_id_ok(id: &str) -> (r: bool)
    ensures
        r == video_id_ok_spec(id@),
{
    let cs = chars_of(id);
    if cs.len() == 0 || cs.len() > 20 {
        return false;
    }
    for i in 0..cs.len()
        invariant
            cs@ == id@,
            forall|j: int| 0 <= j < i ==> id_char(#[trigger] id@[j]),
    {
        let c = cs[i];
        let ok = ('0' <= c && c <= '9') || ('a' <= c && c <= 'z') || ('A' <= c && c <= 'Z') || c
            == '-' || c == '_';
        if !ok {
            return false;
        }
    }
    true
}

/// The URN of a video in the shared track cache.
pub open spec fn urn_spec(id: Seq<char>) -> Seq<char> {
    "youtube:tracks:"@ + id
}

/// The URN of a video in the shared track cache: `youtube:tracks:<id>`.
pub fn urn_for(id: &str) -> (r: String)
    ensures
        r@ == urn_spec(id@),
{
    concat("youtube:tracks:", id)
}

/// Files below this size are error pages or stubs, not audio.
pub const MIN_AUDIO_SIZE: u64 = 8192;

/// A cached file of `len` bytes counts as the video's audio.
pub fn is_cached_size(len: u64) -> (r: bool)
    ensures
        r == (len >= MIN_AUDIO_SIZE),
{
    len >= MIN_AUDIO_SIZE
}

/// The answer for an audio file at `path`.
pub fn ready(path: String) -> (r: YtAudioReady)
    ensures
        r.path == path,
        r.duration_ms is None,
{
    YtAudioReady { path, duration_ms: None }
}

/// The name of the `yt-dlp` executable.
pub fn bin_name(windows: bool) -> (r: &'static str)
    ensures
        r@ == (if windows {
            "yt-dlp.exe"@
        } else {
            "yt-dlp"@
        }),
{
    if windows {
        "yt-dlp.exe"
    } else {
        "yt-dlp"
    }
}

/// The watch page of a video.
pub open spec fn watch_url(id: Seq<char>) -> Seq<char> {
    "https://www.youtube.com/watch?v="@ + id
}

fn watch_url_of(id: &str) -> (r: String)
    ensures
        r@ == watch_url(id@),
{
    concat("https://www.youtube.com/watch?v=", id)
}

// ---------------------------------------------------------------------------
// The host gate
// ---------------------------------------------------------------------------

/// A YouTube host, with one leading `www.` ignored.
pub open spec fn youtube_host(h: Seq<char>) -> bool {
    let host = if is_prefix("www."@, h) {
        h.subrange(4, h.len() as int)
    } else {
        h
    };
    host == "youtu.be"@ || host == "youtube.com"@ || host == "youtube-nocookie.com"@ || is_suffix(
        ".youtube.com"@,
        host,
    ) || is_suffix(".youtube-nocookie.com"@, host)
}

/// An http(s) scheme and a YouTube host, as parsed out of a URL.
pub open spec fn youtube_parts_spec(scheme: Option<Seq<char>>, host: Option<Seq<char>>) -> bool {
    match scheme {
        Some(s) => (s == "http"@ || s == "https"@) && match host {
            Some(h) => youtube_host(h),
            None => false,
        },
        None => false,
    }
}

/// An http(s) URL on a YouTube host.
pub open spec fn is_youtube_url_spec(raw: Seq<char>) -> bool {
    let t = trim(raw);
    youtube_parts_spec(url_scheme_of(t), url_host_of(t))
}

/// A URL's scheme and host pass the YouTube check: scheme http or https,
/// and a YouTube host (one leading `www.` ignored).
pub fn youtube_parts_ok(scheme: Option<String>, host: Option<String>) -> (r: bool)
    ensures
        r == youtube_parts_spec(opt_view(scheme), opt_view(host)),
{
    let scheme = match scheme {
        Some(s) => s,
        None => return false,
    };
    if !(str_eq(scheme.as_str(), "http") || str_eq(scheme.as_str(), "https")) {
        return false;
    }
    let h = match host {
        Some(h) => h,
        None => return false,
    };
    proof {
        reveal_strlit("www.");
    }
    let host = match strip_prefix(h.as_str(), "www.") {
        Some(rest) => rest,
        None => h,
    };
    str_eq(host.as_str(), "youtu.be") || str_eq(host.as_str(), "youtube.com") || str_eq(
        host.as_str(),
        "youtube-nocookie.com",
    ) || ends_with(host.as_str(), ".youtube.com") || ends_with(
        host.as_str(),
        ".youtube-nocookie.com",
    )
}

/// Only YouTube URLs are ever handed to `yt-dlp`: the search field is free
/// text, and `yt-dlp` would run any of its extractors on any link.
pub fn is_youtube_url(raw: &str) -> (r: bool)
    ensures
        r == is_youtube_url_spec(raw@),
{
    let t = trim_str(raw);
    let scheme = url_scheme(t.as_str());
    let host = url_host(t.as_str());
    youtube_parts_ok(scheme, host)
}

// ---------------------------------------------------------------------------
// Search
// ---------------------------------------------------------------------------

/// Results asked of a search when the caller names no limit.
pub const DEFAULT_SEARCH_LIMIT: u32 = 24;

/// The `yt-dlp` search spec: `ytsearch<limit>:<query>`, the limit clamped to
/// 1..=50.
pub open spec fn search_spec(query: Seq<char>, limit: u32) -> Seq<char> {
    let n: nat = if limit < 1 {
        1
    } else if limit > 50 {
        50
    } else {
        limit as nat
    };
    "ytsearch"@ + decimal(n) + ":"@ + query
}

/// The `yt-dlp` search spec for `query` with at most `limit` results.
pub fn search_spec_for(query: &str, limit: u32) -> (r: String)
    ensures
        r@ == search_spec(query@, limit),
{
    let n: u32 = if limit < 1 {
        1
    } else if limit > 50 {
        50
    } else {
        limit
    };
    let d = decimal_string(n as u64);
    let mut s = concat("ytsearch", d.as_str());
    s = concat(s.as_str(), ":");
    concat(s.as_str(), query)
}

/// The query a search runs, trimmed; `None` when it is too short to search
/// (fewer than two bytes).
pub fn search_query(query: &str) -> (r: Option<String>)
    ensures
        match r {
            Some(q) => q@ == trim(query@) && trim_str_bytes_len(query@) >= 2,
            None => trim_str_bytes_len(query@) < 2,
        },
{
    let t = trim_str(query);
    if t.as_str().as_bytes().len() < 2 {
        None
    } else {
        Some(t)
    }
}

/// The UTF-8 length of the trimmed query.
pub open spec fn trim_str_bytes_len(s: Seq<char>) -> nat {
    vstd::utf8::encode_utf8(trim(s)).len()
}

/// A search hit as `yt-dlp` lists it; the duration is the number of seconds
/// as written.
pub struct YtSearchEntry {
    pub id: String,
    pub title: String,
    pub duration_secs: Option<String>,
    pub channel: Option<String>,
    pub channel_id: Option<String>,
}

/// The text of member `k` when it is a string.
pub open spec fn str_field(v: JsonV, k: Seq<char>) -> Option<Seq<char>> {
    match field(v, k) {
        Some(x) => str_of(x),
        None => None,
    }
}

/// The text of member `k`, else of member `alt`, when it is a string.
pub open spec fn str_field_or(v: JsonV, k: Seq<char>, alt: Seq<char>) -> Option<Seq<char>> {
    let m = match field(v, k) {
        Some(x) => Some(x),
        None => field(v, alt),
    };
    match m {
        Some(x) => str_of(x),
        None => None,
    }
}

/// The number member `k` as written.
pub open spec fn num_field(v: JsonV, k: Seq<char>) -> Option<Seq<char>> {
    match field(v, k) {
        Some(JsonV::Num(t)) => Some(t),
        _ => None,
    }
}

/// A search hit as plain values.
pub struct EntryView {
    pub id: Seq<char>,
    pub title: Seq<char>,
    pub duration_secs: Option<Seq<char>>,
    pub channel: Option<Seq<char>>,
    pub channel_id: Option<Seq<char>>,
}

pub open spec fn entry_view(e: YtSearchEntry) -> EntryView {
    EntryView {
        id: e.id@,
        title: e.title@,
        duration_secs: opt_seq(e.duration_secs),
        channel: opt_seq(e.channel),
        channel_id: opt_seq(e.channel_id),
    }
}

/// The hit an entry of a search dump gives: none without a string id and a
/// string title.
pub open spec fn entry_spec(e: JsonV) -> Option<EntryView> {
    match (str_field(e, "id"@), str_field(e, "title"@)) {
        (Some(id), Some(title)) => Some(
            EntryView {
                id,
                title,
                duration_secs: num_field(e, "duration"@),
                channel: str_field_or(e, "channel"@, "uploader"@),
                channel_id: str_field_or(e, "channel_id"@, "uploader_id"@),
            },
        ),
        _ => None,
    }
}

/// The hits of the entries, in order.
pub open spec fn entries_spec(es: Seq<JsonV>) -> Seq<EntryView>
    decreases es.len(),
{
    if es.len() == 0 {
        Seq::empty()
    } else {
        let prev = entries_spec(es.drop_last());
        match entry_spec(es.last()) {
            Some(h) => prev.push(h),
            None => prev,
        }
    }
}

/// The entries of a search dump.
pub open spec fn dump_entries(v: JsonV) -> Seq<JsonV> {
    match field(v, "entries"@) {
        Some(JsonV::Arr(es)) => es,
        _ => Seq::empty(),
    }
}

fn opt_string(v: Option<&Json>) -> (r: Option<String>)
    ensures
        opt_seq(r) == (match opt_json_view(v) {
            Some(x) => str_of(x),
            None => None,
        }),
{
    match v {
        Some(x) => match x.as_str() {
            Some(s) => Some(s.clone()),
            None => None,
        },
        None => None,
    }
}

fn either_string(v: &Json, k: &str, alt: &str) -> (r: Option<String>)
    ensures
        opt_seq(r) == str_field_or(v@, k@, alt@),
{
    let m = match v.get(k) {
        Some(x) => Some(x),
        None => v.get(alt),
    };
    opt_string(m)
}

fn entry_of(e: &Json) -> (r: Option<YtSearchEntry>)
    ensures
        match r {
            Some(h) => entry_spec(e@) == Some(entry_view(h)),
            None => entry_spec(e@) is None,
        },
{
    let id = match opt_string(e.get("id")) {
        Some(s) => s,
        None => return None,
    };
    let title = match opt_string(e.get("title")) {
        Some(s) => s,
        None => return None,
    };
    let duration_secs = match e.get("duration") {
        Some(Json::Num(t)) => Some(t.clone()),
        _ => None,
    };
    let channel = either_string(e, "channel", "uploader");
    let channel_id = either_string(e, "channel_id", "uploader_id");
    Some(YtSearchEntry { id, title, duration_secs, channel, channel_id })
}

/// The hits of a flat-playlist search dump: every entry with a string id and
/// a string title, in order.
pub fn parse_search(doc: &Json) -> (r: Vec<YtSearchEntry>)
    ensures
        r@.map_values(|h: YtSearchEntry| entry_view(h)) == entries_spec(dump_entries(doc@)),
{
    let empty: Vec<Json> = Vec::new();
    let entries: &Vec<Json> = match doc.get("entries") {
        Some(e) => match e.as_array() {
            Some(a) => a,
            None => &empty,
        },
        None => &empty,
    };
    let ghost es = items_view(entries@);
    proof {
        lemma_items_view(entries@);
        assert(items_view(empty@) =~= Seq::<JsonV>::empty());
        assert(es == dump_entries(doc@));
    }
    let mut out: Vec<YtSearchEntry> = Vec::new();
    for i in 0..entries.len()
        invariant
            es == items_view(entries@),
            es.len() == entries@.len(),
            forall|j: int| 0 <= j < entries@.len() ==> #[trigger] es[j] == entries@[j]@,
            out@.map_values(|h: YtSearchEntry| entry_view(h)) == entries_spec(
                es.subrange(0, i as int),
            ),
    {
        assert(es.subrange(0, i + 1).drop_last() =~= es.subrange(0, i as int));
        assert(es.subrange(0, i + 1).last() == entries@[i as int]@);
        let ghost before = out@;
        match entry_of(&entries[i]) {
            Some(h) => {
                out.push(h);
                assert(out@.map_values(|h: YtSearchEntry| entry_view(h)) =~= before.map_values(
                    |h: YtSearchEntry| entry_view(h),
                ).push(entry_view(out@.last())));
            },
            None => {},
        }
    }
    assert(es.subrange(0, entries@.len() as int) =~= es);
    out
}

impl YtSearchItem {
    /// The search result of a hit, with its duration in milliseconds.
    pub fn from_entry(e: YtSearchEntry, duration_ms: Option<u64>) -> (r: YtSearchItem)
        ensures
            r.id == e.id,
            r.title == e.title,
            r.duration_ms == duration_ms,
            r.channel == e.channel,
            r.channel_id == e.channel_id,
    {
        YtSearchItem {
            id: e.id,
            title: e.title,
            duration_ms,
            channel: e.channel,
            channel_id: e.channel_id,
        }
    }
}

// ---------------------------------------------------------------------------
// Resolve
// ---------------------------------------------------------------------------

/// The canonical thumbnail of a video, which always exists.
pub open spec fn default_thumbnail(id: Seq<char>) -> Seq<char> {
    "https://i.ytimg.com/vi/"@ + id + "/hqdefault.jpg"@
}

/// The last `url` string among thumbnail entries (they come smallest first).
pub open spec fn last_thumbnail(ts: Seq<JsonV>) -> Option<Seq<char>>
    decreases ts.len(),
{
    if ts.len() == 0 {
        None
    } else {
        match str_field(ts.last(), "url"@) {
            Some(u) => Some(u),
            None => last_thumbnail(ts.drop_last()),
        }
    }
}

/// The thumbnail of a video document: the largest listed, else the canonical
/// one.
pub open spec fn thumbnail_spec(v: JsonV, id: Seq<char>) -> Seq<char> {
    match field(v, "thumbnails"@) {
        Some(JsonV::Arr(ts)) => match last_thumbnail(ts) {
            Some(u) => u,
            None => default_thumbnail(id),
        },
        _ => default_thumbnail(id),
    }
}

fn thumbnail_of(v: &Json, id: &str) -> (r: String)
    ensures
        r@ == thumbnail_spec(v@, id@),
{
    let fallback = {
        let a = concat("https://i.ytimg.com/vi/", id);
        concat(a.as_str(), "/hqdefault.jpg")
    };
    let ts = match v.get("thumbnails") {
        Some(t) => match t.as_array() {
            Some(a) => a,
            None => return fallback,
        },
        None => return fallback,
    };
    let ghost tv = items_view(ts@);
    proof {
        lemma_items_view(ts@);
        assert(tv.subrange(0, tv.len() as int) =~= tv);
    }
    let mut k = ts.len();
    while k > 0
        invariant
            k <= ts@.len(),
            tv == items_view(ts@),
            field(v@, "thumbnails"@) == Some(JsonV::Arr(tv)),
            fallback@ == default_thumbnail(id@),
            tv.len() == ts@.len(),
            forall|j: int| 0 <= j < ts@.len() ==> #[trigger] tv[j] == ts@[j]@,
            last_thumbnail(tv) == last_thumbnail(tv.subrange(0, k as int)),
        decreases k,
    {
        let ghost sub = tv.subrange(0, k as int);
        assert(sub.last() == ts@[k - 1]@);
        assert(sub.drop_last() =~= tv.subrange(0, k - 1));
        match opt_string(ts[k - 1].get("url")) {
            Some(u) => return u,
            None => {},
        }
        k = k - 1;
    }
    assert(tv.subrange(0, 0) =~= Seq::<JsonV>::empty());
    fallback
}

/// The metadata of a video document: its id (required), its title (else the
/// id), channel and channel id (else uploader and uploader id), thumbnail
/// and watch URL.
pub open spec fn video_meta_spec(v: JsonV) -> Option<(Seq<char>, Seq<char>, Option<Seq<char>>, Option<Seq<char>>, Seq<char>, Seq<char>)> {
    match str_field(v, "id"@) {
        None => None,
        Some(id) => Some(
            (
                id,
                match str_field(v, "title"@) {
                    Some(t) => t,
                    None => id,
                },
                str_field_or(v, "channel"@, "uploader"@),
                str_field_or(v, "channel_id"@, "uploader_id"@),
                thumbnail_spec(v, id),
                watch_url(id),
            ),
        ),
    }
}

/// The metadata of a video document (`yt-dlp -J`), with its duration in
/// milliseconds; a document without an id is an error.
pub fn video_meta(doc: &Json, duration_ms: Option<u64>) -> (r: Result<YtVideoMeta, String>)
    ensures
        match r {
            Ok(m) => video_meta_spec(doc@) == Some(
                (m.id@, m.title@, opt_seq(m.channel), opt_seq(m.channel_id), m.thumbnail@, m.url@),
            ) && m.duration_ms == duration_ms,
            Err(e) => video_meta_spec(doc@) is None && e@ == "resolve: no video id"@,
        },
{
    let id = match opt_string(doc.get("id")) {
        Some(s) => s,
        None => return Err("resolve: no video id".to_owned()),
    };
    let title = match opt_string(doc.get("title")) {
        Some(t) => t,
        None => id.clone(),
    };
    let channel = either_string(doc, "channel", "uploader");
    let channel_id = either_string(doc, "channel_id", "uploader_id");
    let thumbnail = thumbnail_of(doc, id.as_str());
    let url = watch_url_of(id.as_str());
    Ok(YtVideoMeta { id, title, duration_ms, channel, channel_id, thumbnail, url })
}

// ---------------------------------------------------------------------------
// Command lines
// ---------------------------------------------------------------------------

/// The program that runs `yt-dlp` and the arguments that come before the
/// caller's: the interpreter with the zipapp, or the binary alone.
pub fn command_line(yt: &YtDlp) -> (r: (String, Vec<String>))
    ensures
        match yt.python {
            Some(py) => r.0@ == py@ && r.1@.len() == 1 && r.1@[0]@ == yt.path@,
            None => r.0@ == yt.path@ && r.1@.len() == 0,
        },
{
    match &yt.python {
        Some(py) => {
            let mut args: Vec<String> = Vec::new();
            args.push(yt.path.clone());
            (py.clone(), args)
        },
        None => (yt.path.clone(), Vec::new()),
    }
}

/// The player client that gets past bot detection.
pub open spec fn android_client() -> Seq<char> {
    "youtube:player_client=android"@
}

/// The file name pattern a download of `id` is written under.
pub open spec fn download_template_spec(id: Seq<char>) -> Seq<char> {
    "yt_dl_"@ + id + ".%(ext)s"@
}

/// The file name pattern a download of `id` is written under.
pub fn download_template(id: &str) -> (r: String)
    ensures
        r@ == download_template_spec(id@),
{
    let a = concat("yt_dl_", id);
    concat(a.as_str(), ".%(ext)s")
}

pub open spec fn args_view(v: Seq<String>) -> Seq<Seq<char>> {
    v.map_values(|s: String| s@)
}

/// The arguments of a download of `id` into `out_tpl`: best audio converted
/// to a 192K MP3 when ffmpeg is there (`ffmpeg_dir` naming its directory
/// when known), else the best m4a as it is; `extractor_args` when given.
pub open spec fn download_args_spec(
    id: Seq<char>,
    out_tpl: Seq<char>,
    ffmpeg: bool,
    ffmpeg_dir: Option<Seq<char>>,
    extractor_args: Option<Seq<char>>,
) -> Seq<Seq<char>> {
    let head = match extractor_args {
        Some(a) => seq!["--extractor-args"@, a],
        None => Seq::empty(),
    };
    let format = if ffmpeg {
        seq![
            "-f"@,
            "bestaudio/best"@,
            "-x"@,
            "--audio-format"@,
            "mp3"@,
            "--audio-quality"@,
            "192K"@,
        ] + match ffmpeg_dir {
            Some(d) => seq!["--ffmpeg-location"@, d],
            None => Seq::empty(),
        }
    } else {
        seq!["-f"@, "bestaudio[ext=m4a]/bestaudio/best"@]
    };
    head + format + seq![
        "-o"@,
        out_tpl,
        "--newline"@,
        "--no-playlist"@,
        "--no-warnings"@,
        "--"@,
        watch_url(id),
    ]
}

fn push_arg(v: &mut Vec<String>, a: &str)
    ensures
        args_view(final(v)@) == args_view(old(v)@).push(a@),
{
    let ghost before = v@;
    v.push(a.to_owned());
    assert(args_view(v@) =~= args_view(before).push(a@));
}

/// The arguments of a download of `id` into `out_tpl`.
pub fn download_args(
    id: &str,
    out_tpl: &str,
    ffmpeg: bool,
    ffmpeg_dir: Option<&str>,
    extractor_args: Option<&str>,
) -> (r: Vec<String>)
    ensures
        args_view(r@) == download_args_spec(
            id@,
            out_tpl@,
            ffmpeg,
            match ffmpeg_dir {
                Some(d) => Some(d@),
                None => None,
            },
            match extractor_args {
                Some(a) => Some(a@),
                None => None,
            },
        ),
{
    let mut v: Vec<String> = Vec::new();
    if let Some(a) = extractor_args {
        push_arg(&mut v, "--extractor-args");
        push_arg(&mut v, a);
    }
    if ffmpeg {
        push_arg(&mut v, "-f");
        push_arg(&mut v, "bestaudio/best");
        push_arg(&mut v, "-x");
        push_arg(&mut v, "--audio-format");
        push_arg(&mut v, "mp3");
        push_arg(&mut v, "--audio-quality");
        push_arg(&mut v, "192K");
        if let Some(d) = ffmpeg_dir {
            push_arg(&mut v, "--ffmpeg-location");
            push_arg(&mut v, d);
        }
    } else {
        push_arg(&mut v, "-f");
        push_arg(&mut v, "bestaudio[ext=m4a]/bestaudio/best");
    }
    push_arg(&mut v, "-o");
    push_arg(&mut v, out_tpl);
    push_arg(&mut v, "--newline");
    push_arg(&mut v, "--no-playlist");
    push_arg(&mut v, "--no-warnings");
    push_arg(&mut v, "--");
    let url = watch_url_of(id);
    push_arg(&mut v, url.as_str());
    assert(args_view(v@) =~= download_args_spec(
        id@,
        out_tpl@,
        ffmpeg,
        match ffmpeg_dir {
            Some(d) => Some(d@),
            None => None,
        },
        match extractor_args {
            Some(a) => Some(a@),
            None => None,
        },
    ));
    v
}

/// The arguments of a metadata dump of `url` (`-J`, android client).
pub open spec fn resolve_args_spec(url: Seq<char>) -> Seq<Seq<char>> {
    seq![
        "-J"@,
        "--no-playlist"@,
        "--no-warnings"@,
        "--extractor-args"@,
        android_client(),
        "--"@,
        url,
    ]
}

/// The arguments of a metadata dump of `url`.
pub fn resolve_args(url: &str) -> (r: Vec<String>)
    ensures
        args_view(r@) == resolve_args_spec(url@),
{
    let mut v: Vec<String> = Vec::new();
    push_arg(&mut v, "-J");
    push_arg(&mut v, "--no-playlist");
    push_arg(&mut v, "--no-warnings");
    push_arg(&mut v, "--extractor-args");
    push_arg(&mut v, "youtube:player_client=android");
    push_arg(&mut v, "--");
    push_arg(&mut v, url);
    assert(args_view(v@) =~= resolve_args_spec(url@));
    v
}

/// The arguments for resolving a pasted link: refused unless it is a
/// YouTube URL.
pub fn resolve_command(url: &str) -> (r: Result<Vec<String>, String>)
    ensures
        match r {
            Ok(args) => is_youtube_url_spec(url@) && args_view(args@) == resolve_args_spec(url@),
            Err(e) => !is_youtube_url_spec(url@) && e@ == "not a youtube url"@,
        },
{
    if !is_youtube_url(url) {
        return Err("not a youtube url".to_owned());
    }
    Ok(resolve_args(url))
}

/// The arguments of a flat-playlist search for `spec`.
pub open spec fn search_args_spec(spec: Seq<char>) -> Seq<Seq<char>> {
    seq![
        "-J"@,
        "--flat-playlist"@,
        "--no-warnings"@,
        "--extractor-args"@,
        android_client(),
        "--"@,
        spec,
    ]
}

/// The arguments of a flat-playlist search for `spec`.
pub fn search_args(spec: &str) -> (r: Vec<String>)
    ensures
        args_view(r@) == search_args_spec(spec@),
{
    let mut v: Vec<String> = Vec::new();
    push_arg(&mut v, "-J");
    push_arg(&mut v, "--flat-playlist");
    push_arg(&mut v, "--no-warnings");
    push_arg(&mut v, "--extractor-args");
    push_arg(&mut v, "youtube:player_client=android");
    push_arg(&mut v, "--");
    push_arg(&mut v, spec);
    assert(args_view(v@) =~= search_args_spec(spec@));
    v
}

// ---------------------------------------------------------------------------
// Files in the work directory
// ---------------------------------------------------------------------------

/// The prefix of every file a download of `id` leaves.
pub open spec fn temp_prefix(id: Seq<char>) -> Seq<char> {
    "yt_dl_"@ + id + "."@
}

/// A file a download of `id` left behind (finished or not).
pub fn is_download_temp(name: &str, id: &str) -> (r: bool)
    ensures
        r == is_prefix(temp_prefix(id@), name@),
{
    let a = concat("yt_dl_", id);
    let p = concat(a.as_str(), ".");
    starts_with(name, p.as_str())
}

/// The file a finished download of `id` produced: not a `.part` or `.ytdl`
/// temporary.
pub fn is_produced_file(name: &str, id: &str) -> (r: bool)
    ensures
        r == (is_prefix(temp_prefix(id@), name@) && !is_suffix(".part"@, name@) && !is_suffix(
            ".ytdl"@,
            name@,
        )),
{
    is_download_temp(name, id) && !ends_with(name, ".part") && !ends_with(name, ".ytdl")
}

/// A leftover of an interrupted run: a partial download or a half-written
/// binary.
pub fn is_stale_leftover(name: &str) -> (r: bool)
    ensures
        r == (is_prefix("yt_dl_"@, name@) || is_suffix(".download"@, name@)),
{
    starts_with(name, "yt_dl_") || ends_with(name, ".download")
}

// ---------------------------------------------------------------------------
// Binary acquisition
// ---------------------------------------------------------------------------

/// Where release assets are downloaded from.
pub const RELEASE_BASE: &'static str = "https://github.com/yt-dlp/yt-dlp/releases/latest/download";

/// The release asset for a platform and whether it runs through `python`:
/// the plain zipapp when macOS has a suitable Python, else the platform's
/// own build; none for an unsupported platform.
pub fn download_asset_for(
    windows: bool,
    macos: bool,
    linux: bool,
    aarch64: bool,
    python: Option<String>,
) -> (r: Option<(&'static str, Option<String>)>)
    ensures
        match r {
            None => !windows && !macos && !linux,
            Some((asset, py)) => if windows {
                asset@ == "yt-dlp.exe"@ && py is None
            } else if macos {
                match python {
                    Some(p) => asset@ == "yt-dlp"@ && py == Some(p),
                    None => asset@ == "yt-dlp_macos"@ && py is None,
                }
            } else if linux && aarch64 {
                asset@ == "yt-dlp_linux_aarch64"@ && py is None
            } else {
                linux && asset@ == "yt-dlp_linux"@ && py is None
            },
        },
{
    if windows {
        return Some(("yt-dlp.exe", None));
    }
    if macos {
        return match python {
            Some(p) => Some(("yt-dlp", Some(p))),
            None => Some(("yt-dlp_macos", None)),
        };
    }
    if linux && aarch64 {
        return Some(("yt-dlp_linux_aarch64", None));
    }
    if linux {
        return Some(("yt-dlp_linux", None));
    }
    None
}

/// The URL of a release asset.
pub fn release_url(asset: &str) -> (r: String)
    ensures
        r@ == RELEASE_BASE@ + "/"@ + asset@,
{
    let a = concat(RELEASE_BASE, "/");
    concat(a.as_str(), asset)
}

/// Where a redirect points: an absolute `Location` as it is, a relative one
/// against github.com.
pub fn redirect_target(location: &str) -> (r: String)
    ensures
        r@ == (if is_prefix("http://"@, location@) || is_prefix("https://"@, location@) {
            location@
        } else {
            "https://github.com"@ + location@
        }),
{
    if starts_with(location, "http://") || starts_with(location, "https://") {
        location.to_owned()
    } else {
        concat("https://github.com", location)
    }
}

/// Requests sent for one asset before a download gives up on redirects.
pub const MAX_REDIRECTS: u32 = 10;

/// Why fetching a release asset failed.
#[derive(Clone, Copy, PartialEq, Eq, Structural, Debug)]
pub enum FetchFailure {
    /// A redirect came without a usable `Location`.
    RedirectWithoutLocation { code: u16 },
    /// Every request allowed was answered with a redirect.
    TooManyRedirects,
    /// The final answer was not a success.
    Status { code: u16 },
}

/// What fetching a release asset does next.
#[derive(Clone, PartialEq, Eq, Debug)]
pub enum FetchStep {
    /// Send a GET for this URL.
    Request { url: String },
    /// The answer is the asset: save its body.
    Save,
    /// Give up.
    Fail { why: FetchFailure },
}

/// Fetching a release asset, following redirects by hand up to a bound.
pub struct FetchFlow {
    /// Requests sent so far.
    pub sent: u32,
    /// The flow has ended.
    pub done: bool,
}

/// A status code that asks to be redirected.
pub open spec fn is_redirect(code: u16) -> bool {
    300 <= code < 400
}

/// A status code of success.
pub open spec fn is_success(code: u16) -> bool {
    200 <= code < 300
}

impl FetchFlow {
    /// The first request, for the asset's release URL.
    pub fn start(asset: &str) -> (r: (FetchFlow, FetchStep))
        ensures
            r.0.sent == 1,
            !r.0.done,
            r.1 matches FetchStep::Request { url } && url@ == RELEASE_BASE@ + "/"@ + asset@,
    {
        (FetchFlow { sent: 1, done: false }, FetchStep::Request { url: release_url(asset) })
    }

    /// The answer to the last request: its status code and its `Location`
    /// header, when it has a readable one.
    pub fn on_response(&mut self, code: u16, location: Option<&str>) -> (r: FetchStep)
        requires
            !old(self).done,
            1 <= old(self).sent <= MAX_REDIRECTS,
        ensures
            final(self).sent <= MAX_REDIRECTS,
            final(self).sent >= old(self).sent,
            final(self).done <==> !(r is Request),
            r is Request ==> final(self).sent == old(self).sent + 1,
            is_redirect(code) && location is Some && old(self).sent < MAX_REDIRECTS ==> (r matches FetchStep::Request { url } && url@ == (if is_prefix(
                "http://"@,
                location.unwrap()@,
            ) || is_prefix("https://"@, location.unwrap()@) {
                location.unwrap()@
            } else {
                "https://github.com"@ + location.unwrap()@
            })),
            is_redirect(code) && location is None ==> r == (FetchStep::Fail {
                why: FetchFailure::RedirectWithoutLocation { code },
            }),
            is_redirect(code) && location is Some && old(self).sent == MAX_REDIRECTS ==> r == (
            FetchStep::Fail { why: FetchFailure::TooManyRedirects }),
            is_success(code) ==> r == FetchStep::Save,
            !is_redirect(code) && !is_success(code) ==> r == (FetchStep::Fail {
                why: FetchFailure::Status { code },
            }),
    {
        if 300 <= code && code < 400 {
            match location {
                None => {
                    self.done = true;
                    FetchStep::Fail { why: FetchFailure::RedirectWithoutLocation { code } }
                },
                Some(loc) => {
                    if self.sent >= MAX_REDIRECTS {
                        self.done = true;
                        FetchStep::Fail { why: FetchFailure::TooManyRedirects }
                    } else {
                        self.sent = self.sent + 1;
                        FetchStep::Request { url: redirect_target(loc) }
                    }
                },
            }
        } else if 200 <= code && code < 300 {
            self.done = true;
            FetchStep::Save
        } else {
            self.done = true;
            FetchStep::Fail { why: FetchFailure::Status { code } }
        }
    }
}

/// Where finding a runnable yt-dlp stands.
#[derive(Clone, Copy, PartialEq, Eq, Structural, Debug)]
pub enum AcquireStage {
    /// The binary on the PATH is being tried.
    System,
    /// The managed binary in the work directory is being tried.
    Bundled,
    /// The managed binary is being downloaded.
    Downloading,
    /// Done.
    Done,
}

/// What finding a runnable yt-dlp does next.
#[derive(Clone, Copy, PartialEq, Eq, Structural, Debug)]
pub enum AcquireAction {
    /// Run `--version` with the binary on the PATH.
    ProbeSystem,
    /// Run `--version` with the managed binary, if its file exists.
    ProbeBundled,
    /// Download the managed binary and try it.
    Download,
    /// Use the binary on the PATH.
    UseSystem,
    /// Use the managed binary.
    UseBundled,
    /// No yt-dlp can be had.
    Unavailable,
}

/// Finding a runnable yt-dlp: the one on the PATH, else the managed one
/// already saved, else a fresh download.
pub struct AcquireFlow {
    pub stage: AcquireStage,
}

pub open spec fn acquire_rank(s: AcquireStage) -> nat {
    match s {
        AcquireStage::System => 3,
        AcquireStage::Bundled => 2,
        AcquireStage::Downloading => 1,
        AcquireStage::Done => 0,
    }
}

impl AcquireFlow {
    /// The binary on the PATH is tried first.
    pub fn start() -> (r: (AcquireFlow, AcquireAction))
        ensures
            r.0.stage == AcquireStage::System,
            r.1 == AcquireAction::ProbeSystem,
    {
        (AcquireFlow { stage: AcquireStage::System }, AcquireAction::ProbeSystem)
    }

    /// The last probe or download ended: `ok` when the binary tried runs.
    pub fn on_result(&mut self, ok: bool) -> (a: AcquireAction)
        requires
            old(self).stage != AcquireStage::Done,
        ensures
            acquire_rank(final(self).stage) < acquire_rank(old(self).stage),
            a == (match (old(self).stage, ok) {
                (AcquireStage::System, true) => AcquireAction::UseSystem,
                (AcquireStage::System, false) => AcquireAction::ProbeBundled,
                (AcquireStage::Bundled, false) => AcquireAction::Download,
                (_, true) => AcquireAction::UseBundled,
                (_, false) => AcquireAction::Unavailable,
            }),
            (a == AcquireAction::ProbeBundled) <==> final(self).stage == AcquireStage::Bundled,
            (a == AcquireAction::Download) <==> final(self).stage == AcquireStage::Downloading,
    {
        match self.stage {
            AcquireStage::System => {
                if ok {
                    self.stage = AcquireStage::Done;
                    AcquireAction::UseSystem
                } else {
                    self.stage = AcquireStage::Bundled;
                    AcquireAction::ProbeBundled
                }
            },
            AcquireStage::Bundled => {
                if ok {
                    self.stage = AcquireStage::Done;
                    AcquireAction::UseBundled
                } else {
                    self.stage = AcquireStage::Downloading;
                    AcquireAction::Download
                }
            },
            _ => {
                self.stage = AcquireStage::Done;
                if ok {
                    AcquireAction::UseBundled
                } else {
                    AcquireAction::Unavailable
                }
            },
        }
    }
}

// ---------------------------------------------------------------------------
// Output of a run
// ---------------------------------------------------------------------------

/// The lines of a text as `str::lines` gives them: split at `\n`, a `\r`
/// before the `\n` dropped, no line after a final `\n`.
pub open spec fn lines_spec(s: Seq<char>) -> Seq<Seq<char>> {
    let pieces = crate::routes::split_keep(s, '\n', Seq::empty(), Seq::empty());
    let ended = pieces.drop_last().map_values(|p: Seq<char>| strip_cr(p));
    if pieces.last().len() == 0 {
        ended
    } else {
        ended.push(pieces.last())
    }
}

/// `p` without one trailing `\r`.
pub open spec fn strip_cr(p: Seq<char>) -> Seq<char> {
    if p.len() > 0 && p.last() == '\r' {
        p.drop_last()
    } else {
        p
    }
}

/// The last two lines of a run's error output, the last first, joined with
/// ` | `.
pub open spec fn stderr_tail_spec(s: Seq<char>) -> Seq<char> {
    let ls = lines_spec(s);
    if ls.len() == 0 {
        Seq::empty()
    } else if ls.len() == 1 {
        ls[0]
    } else {
        ls[ls.len() - 1] + " | "@ + ls[ls.len() - 2]
    }
}

/// A `Vec<char>` as text without its last character when that is `\r`.
fn without_cr(cs: &Vec<char>) -> (r: String)
    ensures
        r@ == strip_cr(cs@),
{
    if cs.len() > 0 && cs[cs.len() - 1] == '\r' {
        let mut v: Vec<char> = Vec::new();
        let mut i: usize = 0;
        while i < cs.len() - 1
            invariant
                cs@.len() > 0,
                i <= cs@.len() - 1,
                v@ == cs@.subrange(0, i as int),
            decreases cs.len() - 1 - i,
        {
            v.push(cs[i]);
            i = i + 1;
            assert(v@ =~= cs@.subrange(0, i as int));
        }
        assert(v@ =~= cs@.drop_last());
        string_of(v.as_slice())
    } else {
        string_of(cs.as_slice())
    }
}

/// The last two lines of a run's error output, the last first.
pub fn stderr_tail(text: &str) -> (r: String)
    ensures
        r@ == stderr_tail_spec(text@),
{
    let cs = chars_of(text);
    let mut cur: Vec<char> = Vec::new();
    let mut pieces: Vec<Vec<char>> = Vec::new();
    let mut i: usize = 0;
    assert(text@.subrange(0, text@.len() as int) =~= text@);
    assert(cur@ =~= Seq::<char>::empty());
    assert(pieces@.map_values(|p: Vec<char>| p@) =~= Seq::<Seq<char>>::empty());
    while i < cs.len()
        invariant
            cs@ == text@,
            i <= cs@.len(),
            crate::routes::split_keep(text@, '\n', Seq::empty(), Seq::empty())
                == crate::routes::split_keep(
                text@.subrange(i as int, text@.len() as int),
                '\n',
                cur@,
                pieces@.map_values(|p: Vec<char>| p@),
            ),
        decreases cs.len() - i,
    {
        let ghost rest = text@.subrange(i as int, text@.len() as int);
        assert(rest[0] == cs@[i as int]);
        assert(rest.drop_first() =~= text@.subrange(i + 1, text@.len() as int));
        if cs[i] == '\n' {
            let ghost before = pieces@;
            let done = cur;
            pieces.push(done);
            assert(pieces@.map_values(|p: Vec<char>| p@) =~= before.map_values(
                |p: Vec<char>| p@,
            ).push(pieces@.last()@));
            cur = Vec::new();
            assert(cur@ =~= Seq::<char>::empty());
        } else {
            cur.push(cs[i]);
        }
        i = i + 1;
    }
    assert(text@.subrange(i as int, text@.len() as int) =~= Seq::<char>::empty());
    let ghost all = crate::routes::split_keep(text@, '\n', Seq::empty(), Seq::empty());
    let ghost pv = pieces@.map_values(|p: Vec<char>| p@);
    assert(all == pv.push(cur@));
    assert(all.drop_last() =~= pv);
    let ghost ls = lines_spec(text@);
    // The lines: every finished piece without its `\r`, then the last piece
    // when it is not empty.
    let mut lines: Vec<String> = Vec::new();
    let mut k: usize = 0;
    while k < pieces.len()
        invariant
            k <= pieces@.len(),
            pv == pieces@.map_values(|p: Vec<char>| p@),
            lines@.len() == k,
            forall|j: int| 0 <= j < k ==> (#[trigger] lines@[j])@ == strip_cr(pv[j]),
        decreases pieces.len() - k,
    {
        lines.push(without_cr(&pieces[k]));
        k = k + 1;
    }
    if cur.len() > 0 {
        lines.push(string_of(cur.as_slice()));
    }
    assert(lines@.map_values(|l: String| l@) =~= ls);
    let n = lines.len();
    if n == 0 {
        String::new()
    } else if n == 1 {
        lines[0].clone()
    } else {
        let a = concat(lines[n - 1].as_str(), " | ");
        let r = concat(a.as_str(), lines[n - 2].as_str());
        assert(lines@.map_values(|l: String| l@)[n - 1] == ls[n - 1]);
        assert(lines@.map_values(|l: String| l@)[n - 2] == ls[n - 2]);
        r
    }
}

/// A character of a progress number: a digit or a dot.
pub open spec fn number_char(c: char) -> bool {
    ('0' <= c <= '9') || c == '.'
}

/// Where the run of digits and dots at the end of `s` starts.
pub open spec fn number_run_start(s: Seq<char>) -> nat
    decreases s.len(),
{
    if s.len() > 0 && number_char(s.last()) {
        number_run_start(s.drop_last())
    } else {
        s.len()
    }
}

/// The index of the first `c` in `s`.
pub open spec fn index_of(s: Seq<char>, c: char) -> Option<nat>
    decreases s.len(),
{
    if s.len() == 0 {
        None
    } else if s[0] == c {
        Some(0)
    } else {
        match index_of(s.drop_first(), c) {
            Some(i) => Some(i + 1),
            None => None,
        }
    }
}

/// The progress number of a `[download]` line: the digits and dots just
/// before its first `%`.
pub open spec fn percent_text_spec(line: Seq<char>) -> Option<Seq<char>> {
    if !occurs("[download]"@, line) {
        None
    } else {
        match index_of(line, '%') {
            None => None,
            Some(p) => {
                let before = line.subrange(0, p as int);
                Some(before.subrange(number_run_start(before) as int, before.len() as int))
            },
        }
    }
}

/// The line can be cut before its progress number: the character before the
/// number, if any, is ASCII (cutting one byte after a wider character panics).
pub open spec fn percent_cut_ok(line: Seq<char>) -> bool {
    match index_of(line, '%') {
        None => true,
        Some(p) => {
            let before = line.subrange(0, p as int);
            let k = number_run_start(before);
            k == 0 || (before[k - 1] as u32) < 128
        },
    }
}

proof fn lemma_index_of(s: Seq<char>, c: char, i: int)
    requires
        0 <= i <= s.len(),
        forall|j: int| 0 <= j < i ==> s[j] != c,
    ensures
        i < s.len() && s[i] == c ==> index_of(s, c) == Some(i as nat),
        i == s.len() ==> index_of(s, c) is None,
    decreases i,
{
    if i > 0 {
        assert forall|j: int| 0 <= j < i - 1 implies s.drop_first()[j] != c by {
            assert(s.drop_first()[j] == s[j + 1]);
        }
        lemma_index_of(s.drop_first(), c, i - 1);
    }
}

proof fn lemma_number_run_start(s: Seq<char>, k: int)
    requires
        0 <= k <= s.len(),
        forall|j: int| k <= j < s.len() ==> number_char(s[j]),
        k == 0 || !number_char(s[k - 1]),
    ensures
        number_run_start(s) == k,
    decreases s.len(),
{
    if s.len() > k {
        lemma_number_run_start(s.drop_last(), k);
    }
}

fn percent_position(cs: &Vec<char>) -> (r: Option<(usize, usize)>)
    ensures
        match r {
            None => index_of(cs@, '%') is None,
            Some((p, k)) => index_of(cs@, '%') == Some(p as nat) && p <= cs@.len()
                && number_run_start(cs@.subrange(0, p as int)) == k && k <= p,
        },
{
    let mut p: usize = 0;
    while p < cs.len() && cs[p] != '%'
        invariant
            p <= cs@.len(),
            forall|j: int| 0 <= j < p ==> cs@[j] != '%',
        decreases cs.len() - p,
    {
        p = p + 1;
    }
    proof {
        lemma_index_of(cs@, '%', p as int);
    }
    if p == cs.len() {
        return None;
    }
    let ghost before = cs@.subrange(0, p as int);
    let mut k = p;
    while k > 0 && (('0' <= cs[k - 1] && cs[k - 1] <= '9') || cs[k - 1] == '.')
        invariant
            k <= p < cs@.len(),
            before == cs@.subrange(0, p as int),
            forall|j: int| k <= j < p ==> number_char(cs@[j]),
        decreases k,
    {
        k = k - 1;
    }
    proof {
        lemma_number_run_start(before, k as int);
    }
    Some((p, k))
}

/// Reading the progress of the line cannot fail: it is no `[download]`
/// line, or it can be cut before its progress number (see `percent_cut_ok`).
pub fn percent_cut_is_ok(line: &str) -> (r: bool)
    ensures
        r == (occurs("[download]"@, line@) ==> percent_cut_ok(line@)),
{
    if !contains(line, "[download]") {
        return true;
    }
    let cs = chars_of(line);
    match percent_position(&cs) {
        None => true,
        Some((_p, k)) => k == 0 || (cs[k - 1] as u32) < 128,
    }
}

/// The progress number of a `[download]` line (`[download]  42.1% of ...`
/// gives `42.1`): tolerant on purpose, as the wording drifts across
/// versions while the number does not.
pub fn percent_text(line: &str) -> (r: Option<String>)
    requires
        occurs("[download]"@, line@) ==> percent_cut_ok(line@),
    ensures
        opt_seq(r) == percent_text_spec(line@),
{
    if !contains(line, "[download]") {
        return None;
    }
    let cs = chars_of(line);
    match percent_position(&cs) {
        None => None,
        Some((p, k)) => {
            let mut v: Vec<char> = Vec::new();
            let mut i = k;
            while i < p
                invariant
                    k <= i <= p <= cs@.len(),
                    v@ == cs@.subrange(k as int, i as int),
                decreases p - i,
            {
                v.push(cs[i]);
                i = i + 1;
                assert(v@ =~= cs@.subrange(k as int, i as int));
            }
            assert(cs@.subrange(0, p as int).subrange(k as int, p as int) =~= cs@.subrange(
                k as int,
                p as int,
            ));
            Some(string_of(v.as_slice()))
        },
    }
}

/// The line that marks the start of the conversion step.
pub fn is_convert_line(line: &str) -> (r: bool)
    ensures
        r == (is_prefix("[ExtractAudio]"@, line@) || is_prefix("[Merger]"@, line@)),
{
    starts_with(line, "[ExtractAudio]") || starts_with(line, "[Merger]")
}

// ---------------------------------------------------------------------------
// Making a video playable
// ---------------------------------------------------------------------------

/// Where making a video playable stands.
#[derive(Clone, Copy, PartialEq, Eq, Structural, Debug)]
pub enum EnsureStage {
    /// The first download runs.
    First,
    /// The managed binary is being downloaded again.
    Refreshing,
    /// The download runs again with the fresh binary.
    Second,
    /// The download runs with the lenient android client.
    Android,
    /// Done.
    Done,
}

/// What the caller does next.
#[derive(Clone, Copy, PartialEq, Eq, Structural, Debug)]
pub enum EnsureAction {
    /// Run the download, with the android client's extractor arguments when
    /// `android`; announce the stage to the UI first when one is given.
    Run { android: bool, announce: Option<EnsureAnnounce> },
    /// Download the managed binary again (announcing the setup stage).
    Refresh,
    /// Done: the file is there (`true`) or the last failure is the answer.
    Finish { ok: bool },
}

/// Pipeline stages shown in the UI.
#[derive(Clone, Copy, PartialEq, Eq, Structural, Debug)]
pub enum EnsureAnnounce {
    Setup,
    Download,
}

/// The stage's name as the UI spells it.
pub fn announce_label(a: EnsureAnnounce) -> (r: &'static str)
    ensures
        r@ == (match a {
            EnsureAnnounce::Setup => "setup"@,
            EnsureAnnounce::Download => "download"@,
        }),
{
    match a {
        EnsureAnnounce::Setup => "setup",
        EnsureAnnounce::Download => "download",
    }
}

/// The attempts at making a video playable: a managed binary that fails is
/// most likely outdated, so it is downloaded again once and the download
/// retried; a download that still fails is retried once with the android
/// player client.
pub struct EnsureFlow {
    pub stage: EnsureStage,
    /// The binary of the first attempt is one this app manages.
    pub managed: bool,
}

pub open spec fn ensure_rank(s: EnsureStage) -> nat {
    match s {
        EnsureStage::First => 4,
        EnsureStage::Refreshing => 3,
        EnsureStage::Second => 2,
        EnsureStage::Android => 1,
        EnsureStage::Done => 0,
    }
}

impl EnsureFlow {
    /// The first attempt, with the binary at hand.
    pub fn start(managed: bool) -> (r: (EnsureFlow, EnsureAction))
        ensures
            r.0.stage == EnsureStage::First,
            r.0.managed == managed,
            r.1 == (EnsureAction::Run { android: false, announce: None }),
    {
        (
            EnsureFlow { stage: EnsureStage::First, managed },
            EnsureAction::Run { android: false, announce: None },
        )
    }

    /// A download run ended, successfully or not.
    pub fn on_run(&mut self, ok: bool) -> (a: EnsureAction)
        requires
            old(self).stage == EnsureStage::First || old(self).stage == EnsureStage::Second
                || old(self).stage == EnsureStage::Android,
        ensures
            final(self).managed == old(self).managed,
            ensure_rank(final(self).stage) < ensure_rank(old(self).stage),
            ok ==> a == (EnsureAction::Finish { ok: true }) && final(self).stage
                == EnsureStage::Done,
            !ok && old(self).stage == EnsureStage::First && old(self).managed ==> a
                == EnsureAction::Refresh && final(self).stage == EnsureStage::Refreshing,
            !ok && ((old(self).stage == EnsureStage::First && !old(self).managed) || old(
                self,
            ).stage == EnsureStage::Second) ==> a == (EnsureAction::Run {
                android: true,
                announce: Some(EnsureAnnounce::Download),
            }) && final(self).stage == EnsureStage::Android,
            !ok && old(self).stage == EnsureStage::Android ==> a == (EnsureAction::Finish {
                ok: false,
            }) && final(self).stage == EnsureStage::Done,
    {
        if ok {
            self.stage = EnsureStage::Done;
            return EnsureAction::Finish { ok: true };
        }
        match self.stage {
            EnsureStage::First => {
                if self.managed {
                    self.stage = EnsureStage::Refreshing;
                    EnsureAction::Refresh
                } else {
                    self.stage = EnsureStage::Android;
                    EnsureAction::Run { android: true, announce: Some(EnsureAnnounce::Download) }
                }
            },
            EnsureStage::Second => {
                self.stage = EnsureStage::Android;
                EnsureAction::Run { android: true, announce: Some(EnsureAnnounce::Download) }
            },
            _ => {
                self.stage = EnsureStage::Done;
                EnsureAction::Finish { ok: false }
            },
        }
    }

    /// The managed binary was downloaded again (`fresh`) or could not be.
    pub fn on_refreshed(&mut self, fresh: bool) -> (a: EnsureAction)
        requires
            old(self).stage == EnsureStage::Refreshing,
        ensures
            final(self).managed == old(self).managed,
            ensure_rank(final(self).stage) < ensure_rank(old(self).stage),
            fresh ==> a == (EnsureAction::Run { android: false, announce: None })
                && final(self).stage == EnsureStage::Second,
            !fresh ==> a == (EnsureAction::Run {
                android: true,
                announce: Some(EnsureAnnounce::Download),
            }) && final(self).stage == EnsureStage::Android,
    {
        if fresh {
            self.stage = EnsureStage::Second;
            EnsureAction::Run { android: false, announce: None }
        } else {
            self.stage = EnsureStage::Android;
            EnsureAction::Run { android: true, announce: Some(EnsureAnnounce::Download) }
        }
    }
}

/// The extractor arguments of a run: the android client when asked for.
pub fn extractor_args_for(android: bool) -> (r: Option<&'static str>)
    ensures
        match r {
            Some(a) => android && a@ == android_client(),
            None => !android,
        },
{
    if android {
        Some("youtube:player_client=android")
    } else {
        None
    }
}

/// The title of a video is the document's string `title`; the id stands in
/// for it only when the document has no string title. A document with a
/// string id always resolves, under that id.
pub proof fn law_video_title_is_the_documents_own(v: JsonV, id: Seq<char>)
    requires
        field(v, "id"@) == Some(JsonV::Str(id)),
    ensures
        video_meta_spec(v) is Some,
        video_meta_spec(v).unwrap().0 == id,
        forall|t: Seq<char>|
            field(v, "title"@) == Some(JsonV::Str(t)) ==> video_meta_spec(v).unwrap().1 == t,
        !(field(v, "title"@) matches Some(JsonV::Str(_))) ==> video_meta_spec(v).unwrap().1 == id,
{
}

/// The accepted video ids are exactly the strings of 1 to 20 characters out
/// of `A-Z`, `a-z`, `0-9`, `-` and `_`, wherever each character stands.
pub proof fn law_video_ids_are_the_short_safe_strings(id: Seq<char>)
    ensures
        video_id_ok_spec(id) <==> (1 <= id.len() <= 20 && forall|i: int|
            0 <= i < id.len() ==> ('0' <= #[trigger] id[i] <= '9') || ('a' <= id[i] <= 'z') || (
            'A' <= id[i] <= 'Z') || id[i] == '-' || id[i] == '_'),
{
}

/// A video id makes a URN made only of `[A-Za-z0-9_:-]`: nothing that could
/// leave the cache directory or form another file name.
pub proof fn law_valid_id_makes_a_safe_urn(id: Seq<char>)
    requires
        video_id_ok_spec(id),
    ensures
        forall|i: int|
            0 <= i < urn_spec(id).len() ==> id_char(#[trigger] urn_spec(id)[i]) || urn_spec(id)[i]
                == ':',
{
    reveal_strlit("youtube:tracks:");
    assert forall|i: int| 0 <= i < urn_spec(id).len() implies id_char(#[trigger] urn_spec(id)[i])
        || urn_spec(id)[i] == ':' by {
        if i >= 15 {
            assert(urn_spec(id)[i] == id[i - 15]);
        }
    }
}

} // verus!
