use sparkamp::engine::null::NullBackend;
use sparkamp::engine::Player;
use sparkamp::ffi::id3::{
    sparkamp_tag_clear_artwork, sparkamp_tag_frame_count, sparkamp_tag_frame_id,
    sparkamp_tag_frame_value, sparkamp_tag_get, sparkamp_tag_get_artwork_data, sparkamp_tag_open,
    sparkamp_tag_save, sparkamp_tag_set, sparkamp_tag_set_artwork, ExtraFrame, SaveEvent, SaveStep,
    SparkampTagCtx, TagFields,
};
use sparkamp::ffi::lyrics::sparkamp_lyrics_view;
use sparkamp::ffi::now_playing::{
    now_playing_path, sparkamp_now_playing_has_play_count, sparkamp_now_playing_last_played,
    sparkamp_now_playing_open, sparkamp_now_playing_play_count, sparkamp_now_playing_tag_count,
    sparkamp_now_playing_tag_label, sparkamp_now_playing_tag_value, NowPlayingInfo,
};
use sparkamp::ffi::skin::sparkamp_skin_template_css;
use sparkamp::ffi::viz::sparkamp_render_granite;
use sparkamp::ffi::{sparkamp_create, SparkampCtx};
use sparkamp::json::{read_strings, write_strings};
use sparkamp::model::{Playlist, Track};
use sparkamp::text::CText;

fn text(s: &str) -> CText {
    CText::Text(s.to_string())
}

fn open_tag(extra: Vec<ExtraFrame>) -> SparkampTagCtx {
    match sparkamp_tag_open(&text("/tmp/tag.mp3"), TagFields::new(), extra, Some(vec![1, 2, 3])) {
        Some(t) => t,
        None => panic!("a path is given"),
    }
}

#[test]
fn ffi_extended_and_passthrough_roundtrip() {
    let mut ctx = open_tag(Vec::new());
    sparkamp_tag_set(Some(&mut ctx), Some("TCOM"), Some("A Composer"));
    sparkamp_tag_set(Some(&mut ctx), Some("TPUB"), Some("A Publisher"));
    assert_eq!(sparkamp_tag_get(Some(&ctx), Some("TPUB")), "A Publisher");

    sparkamp_tag_set(Some(&mut ctx), Some("TPUB"), Some("Second Publisher"));
    assert_eq!(sparkamp_tag_get(Some(&ctx), Some("TPUB")), "Second Publisher");

    let mut written: Vec<String> = Vec::new();
    let mut event = SaveEvent::Asked(Some(false));
    loop {
        match sparkamp_tag_save(Some(&ctx), event) {
            SaveStep::WriteFields => event = SaveEvent::FieldsWritten(true),
            SaveStep::WriteExtra(i) => {
                written.push(ctx.pending_extra[i].1.clone());
                event = SaveEvent::ExtraWritten(i + 1, true);
            }
            SaveStep::Done(code) => {
                assert_eq!(code, 0);
                break;
            }
        }
    }
    assert_eq!(written, vec!["Second Publisher"]);

    let mut fields = TagFields::new();
    fields.composer = ctx.fields.composer.clone();
    let extra = vec![ExtraFrame { id: "TPUB".to_string(), value: written[0].clone() }];
    let ctx2 = match sparkamp_tag_open(&text("/tmp/tag.mp3"), fields, extra, None) {
        Some(t) => t,
        None => panic!("a path is given"),
    };
    assert_eq!(sparkamp_tag_get(Some(&ctx2), Some("TCOM")), "A Composer");
    assert_eq!(sparkamp_tag_get(Some(&ctx2), Some("TPUB")), "Second Publisher");
    assert_eq!(sparkamp_tag_frame_count(Some(&ctx2)), 1);
    assert_eq!(sparkamp_tag_frame_id(Some(&ctx2), 0), "TPUB");
    assert_eq!(sparkamp_tag_frame_value(Some(&ctx2), 0), "Second Publisher");
    assert_eq!(sparkamp_tag_frame_id(Some(&ctx2), 1), "");
}

#[test]
fn ffi_set_then_clear_artwork_roundtrips() {
    let save = |ctx: &SparkampTagCtx| {
        let asked = sparkamp_tag_save(Some(ctx), SaveEvent::Asked(Some(false)));
        assert_eq!(asked, SaveStep::WriteFields);
        match sparkamp_tag_save(Some(ctx), SaveEvent::FieldsWritten(true)) {
            SaveStep::Done(code) => code,
            _ => panic!("nothing but the fields is to be written"),
        }
    };
    let mut ctx = open_tag(Vec::new());
    sparkamp_tag_set_artwork(Some(&mut ctx), &text("/tmp/a.png"));
    assert_eq!(ctx.fields.artwork_path, "/tmp/a.png");
    assert_eq!(save(&ctx), 0);
    sparkamp_tag_clear_artwork(Some(&mut ctx));
    assert_eq!(ctx.fields.artwork_path, "");
    assert_eq!(save(&ctx), 0);
    sparkamp_tag_set_artwork(Some(&mut ctx), &CText::Null);
    assert_eq!(ctx.fields.artwork_path, "");
    assert_eq!(sparkamp_tag_get_artwork_data(Some(&ctx)), Some(vec![1, 2, 3]));
    assert_eq!(sparkamp_tag_get_artwork_data(None), None);
}

#[test]
fn a_frame_that_is_no_text_cannot_be_set() {
    let mut ctx = open_tag(Vec::new());
    sparkamp_tag_set(Some(&mut ctx), Some("APIC"), Some("x"));
    assert_eq!(sparkamp_tag_get(Some(&ctx), Some("APIC")), "");
    assert!(ctx.pending_extra.is_empty());
    sparkamp_tag_set(Some(&mut ctx), Some("USLT"), Some("la"));
    assert_eq!(sparkamp_tag_get(Some(&ctx), Some("USLT")), "la");
    assert_eq!(sparkamp_tag_get(None, Some("USLT")), "");
    assert!(sparkamp_tag_open(&CText::Null, TagFields::new(), Vec::new(), None).is_none());
}

#[test]
fn a_save_says_why_it_failed() {
    let mut ctx = open_tag(Vec::new());
    sparkamp_tag_set(Some(&mut ctx), Some("TPUB"), Some("x"));
    assert_eq!(sparkamp_tag_save(None, SaveEvent::Asked(Some(false))), SaveStep::Done(-2));
    assert_eq!(sparkamp_tag_save(Some(&ctx), SaveEvent::Asked(Some(true))), SaveStep::Done(-1));
    assert_eq!(sparkamp_tag_save(Some(&ctx), SaveEvent::Asked(None)), SaveStep::Done(-1));
    assert_eq!(sparkamp_tag_save(Some(&ctx), SaveEvent::FieldsWritten(false)), SaveStep::Done(-2));
    assert_eq!(
        sparkamp_tag_save(Some(&ctx), SaveEvent::ExtraWritten(1, false)),
        SaveStep::Done(-2)
    );
}

fn view(artist: &str, title: &str, lyric: Option<&str>) -> serde_json::Value {
    let out = sparkamp_lyrics_view(&text("/tmp/a.mp3"), &text(artist), &text(title), &text(""), lyric);
    match out {
        Some(json) => match serde_json::from_str(&json) {
            Ok(v) => v,
            Err(e) => panic!("{e}"),
        },
        None => panic!("a path is given"),
    }
}

#[test]
fn view_json_has_body_true_with_uslt() {
    let v = view("A", "T", Some("one\ntwo"));
    assert_eq!(v["has_body"], true);
    assert_eq!(v["body"], "one\ntwo");
    assert_eq!(v["title"], "A - T");
}

#[test]
fn view_json_has_body_false_and_search_url() {
    let v = view("Miles Davis", "So What", None);
    assert_eq!(v["has_body"], false);
    assert_eq!(v["body"], "");
    assert_eq!(
        v["search_url"],
        "https://duckduckgo.com/?q=Miles%20Davis%20So%20What%20lyrics"
    );
}

#[test]
fn null_path_returns_null() {
    assert!(sparkamp_lyrics_view(&CText::Null, &CText::Null, &CText::Null, &CText::Null, None)
        .is_none());
}

#[test]
fn each_builtin_crosses_as_its_own_template() {
    let fetch = |name: &str| {
        sparkamp_skin_template_css(&text(name), "--sp-background: #000;", "--sp-background: #fff;")
    };
    let dark = fetch("dark").unwrap_or_default();
    let light = fetch("light").unwrap_or_default();
    assert_eq!(dark, "--sp-background: #000;");
    assert_eq!(light, "--sp-background: #fff;");
    assert_ne!(dark, light, "the two are not the same skin");
    assert!(dark.contains("--sp-background:"));
}

#[test]
fn an_unknown_skin_name_returns_null() {
    assert!(sparkamp_skin_template_css(&text("chartreuse"), "a", "b").is_none());
    assert!(sparkamp_skin_template_css(&CText::Null, "a", "b").is_none());
    assert!(sparkamp_skin_template_css(&text("dark"), "a\0", "b").is_none());
}

fn ctx_with(tracks: usize) -> SparkampCtx<NullBackend> {
    let player = match Player::<NullBackend>::open() {
        Ok(p) => p,
        Err(e) => panic!("{}", e.message),
    };
    let mut playlist = Playlist::new();
    for _ in 0..tracks {
        playlist.add(Track {
            path: "/nonexistent/skip-db-load-test-track.mp3".to_string(),
            title: "Test Track".to_string(),
            artist: String::new(),
            album_artist: String::new(),
            album: String::new(),
            duration: None,
            broken: false,
            read_only: false,
            id: 0,
        });
    }
    sparkamp_create(player, None, Some(playlist)).0
}

fn unknown() -> NowPlayingInfo {
    NowPlayingInfo {
        tags: vec![("Title".to_string(), "Test Track".to_string())],
        tech_line: String::new(),
        technical: Vec::new(),
        artwork_path: None,
        play_count: None,
        last_played: None,
        last_scanned: None,
        added_at: None,
        artist_wiki_url: None,
        album_wiki_url: None,
    }
}

#[test]
fn now_playing_open_is_none_safe_when_media_lib_closed() {
    let ctx = ctx_with(1);
    assert_eq!(
        now_playing_path(Some(&ctx)),
        Some("/nonexistent/skip-db-load-test-track.mp3".to_string())
    );
    let np = match sparkamp_now_playing_open(Some(&ctx), unknown()) {
        Some(np) => np,
        None => panic!("a track is current"),
    };
    assert_eq!(sparkamp_now_playing_has_play_count(Some(&np)), 0);
    assert_eq!(sparkamp_now_playing_play_count(Some(&np)), 0);
    assert_eq!(sparkamp_now_playing_last_played(Some(&np)), "");
    assert_eq!(sparkamp_now_playing_tag_count(Some(&np)), 1);
    assert_eq!(sparkamp_now_playing_tag_label(Some(&np), 0), "Title");
    assert_eq!(sparkamp_now_playing_tag_value(Some(&np), 0), "Test Track");
    assert_eq!(sparkamp_now_playing_tag_value(Some(&np), 1), "");
    assert!(sparkamp_now_playing_open(Some(&ctx_with(0)), unknown()).is_none());
}

#[test]
fn a_plasma_frame_needs_a_buffer_and_pixels() {
    let ctx = ctx_with(1);
    match sparkamp_render_granite(Some(&ctx), true, 3, 2) {
        Some(f) => assert_eq!(f.len, 24),
        None => panic!("a frame is drawn"),
    }
    assert!(sparkamp_render_granite(Some(&ctx), true, 0, 2).is_none());
    assert!(sparkamp_render_granite(Some(&ctx), false, 3, 2).is_none());
}

#[test]
fn a_list_of_texts_survives_json() {
    let list = vec!["a\"b".to_string(), "é\n".to_string(), String::new()];
    let json = write_strings(&list);
    assert_eq!(json, "[\"a\\\"b\",\"é\\n\",\"\"]");
    assert_eq!(read_strings(&json), Some(list));
    assert_eq!(read_strings("[1]"), None);
    assert_eq!(read_strings("nope"), None);
}
