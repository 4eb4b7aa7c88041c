use sparkamp::buffer::to_buffer;
use sparkamp::engine::null::NullBackend;
use sparkamp::engine::Player;
use sparkamp::ffi::dedupe::{
    dedup_next, sparkamp_dedup_add_to_playlist, sparkamp_dedup_cancel,
    sparkamp_dedup_replace_playlist, sparkamp_dedup_start, sparkamp_open_file_location, DedupStep,
    DupeConfidence, DupeGroup, SparkampDedupTrack,
};
use sparkamp::ffi::media_library::{
    album_query, album_sort_from_u32, album_tracks_query, needs_probe, rescan_next, row_probed, sparkamp_ml_delete_playlist,
    sparkamp_ml_remove_track, sparkamp_ml_add_files, sparkamp_ml_add_folder,
    sparkamp_ml_add_tracks_to_playlist, sparkamp_ml_albums, sparkamp_ml_append_paths_to_playlist,
    sparkamp_ml_cancel_scan, sparkamp_ml_create_playlist, sparkamp_ml_folder_count,
    sparkamp_ml_folder_path, sparkamp_ml_folder_recurse, sparkamp_ml_get_tracks,
    sparkamp_ml_note_played, sparkamp_ml_playlist_id, sparkamp_ml_poll_watch_event,
    sparkamp_ml_remove_folder, sparkamp_ml_rescan_all, sparkamp_ml_save_playlist_as,
    sparkamp_ml_scan_is_running, sparkamp_ml_scan_progress, sparkamp_ml_set_current_playlist,
    sparkamp_rg_analyze_missing, sparkamp_rg_analyze_selection, track_query, FileFacts, Folder,
    FolderEvent, FolderStep, Owner, RescanEvent, RescanStep, RgStart, SavedPlaylist, ScanJob,
    SparkampAlbum, SparkampLibTrack, TrackQuery, WatchAction, watch_to_apply,
};
use sparkamp::ffi::queue::{sparkamp_queue_count, sparkamp_queue_toggle};
use sparkamp::ffi::{sparkamp_create, SparkampCtx};
use sparkamp::media_library::{AlbumGroup, AlbumSort, LibTrack};
use sparkamp::model::{Playlist, Track};
use sparkamp::text::CText;

const SEC: u64 = 1_000_000_000;

fn decode(buf: &[u8]) -> &str {
    let end = buf.iter().position(|&b| b == 0).unwrap_or(buf.len());
    match std::str::from_utf8(&buf[..end]) {
        Ok(s) => s,
        Err(e) => panic!("{e}"),
    }
}

fn text(s: &str) -> CText {
    CText::Text(s.to_string())
}

fn on_disk() -> FileFacts {
    FileFacts { read_only: false, missing: false }
}

fn test_ctx() -> SparkampCtx<NullBackend> {
    let player = match Player::<NullBackend>::open() {
        Ok(p) => p,
        Err(e) => panic!("{}", e.message),
    };
    sparkamp_create(player, None, None).0
}

fn lib_track(id: i64, title: &str, length: Option<u64>) -> LibTrack {
    let mut t = LibTrack::default();
    t.id = id;
    t.path = format!("/music/{id}.mp3");
    t.filename = format!("{id}.mp3");
    t.title = Some(title.to_string());
    t.length = length;
    t
}

#[test]
fn album_sort_from_u32_maps_known_values_and_defaults_to_artist() {
    assert_eq!(album_sort_from_u32(0), AlbumSort::Artist);
    assert_eq!(album_sort_from_u32(1), AlbumSort::Album);
    assert_eq!(album_sort_from_u32(2), AlbumSort::Year);
    assert_eq!(album_sort_from_u32(99), AlbumSort::Artist);
}

#[test]
fn from_group_round_trips_a_normal_album_with_year_and_artwork() {
    let g = AlbumGroup {
        album: "Best Hits".to_string(),
        album_artist: "Artist A".to_string(),
        year: Some(1999),
        track_count: 2,
        artwork_path: Some("/art/best-hits.jpg".to_string()),
        is_no_album: false,
    };
    let ffi = SparkampAlbum::from_group(&g);
    assert_eq!(decode(&ffi.album), "Best Hits");
    assert_eq!(decode(&ffi.album_artist), "Artist A");
    assert_eq!(decode(&ffi.artwork_path), "/art/best-hits.jpg");
    assert_eq!(ffi.year, 1999);
    assert_eq!(ffi.has_year, 1);
    assert_eq!(ffi.track_count, 2);
    assert_eq!(ffi.is_no_album, 0);
}

#[test]
fn from_group_round_trips_the_no_album_bucket() {
    let g = AlbumGroup {
        album: String::new(),
        album_artist: String::new(),
        year: None,
        track_count: 5,
        artwork_path: None,
        is_no_album: true,
    };
    let ffi = SparkampAlbum::from_group(&g);
    assert_eq!(decode(&ffi.album), "");
    assert_eq!(decode(&ffi.album_artist), "");
    assert_eq!(decode(&ffi.artwork_path), "");
    assert_eq!(ffi.year, 0);
    assert_eq!(ffi.has_year, 0);
    assert_eq!(ffi.track_count, 5);
    assert_eq!(ffi.is_no_album, 1);
}

#[test]
fn from_group_truncates_and_nul_terminates_an_oversized_album_name() {
    let long_name = "x".repeat(300);
    let g = AlbumGroup {
        album: long_name.clone(),
        album_artist: "Band".to_string(),
        year: Some(2020),
        track_count: 1,
        artwork_path: None,
        is_no_album: false,
    };
    let ffi = SparkampAlbum::from_group(&g);
    assert_eq!(decode(&ffi.album).len(), 255);
    assert!(long_name.starts_with(decode(&ffi.album)));
    assert_eq!(ffi.album[255], 0);
}

#[test]
fn a_buffer_is_never_cut_inside_a_character() {
    let buf = to_buffer::<8>("abcdefé");
    assert_eq!(decode(&buf), "abcdef");
    assert_eq!(&buf, b"abcdef\0\0");
}

fn row(duration: Option<u64>) -> Track {
    Track {
        path: "/music/a.mp3".to_string(),
        title: "Song".to_string(),
        artist: "Artist".to_string(),
        album_artist: "Various".to_string(),
        album: "Album".to_string(),
        duration,
        broken: false,
        read_only: false,
        id: 1,
    }
}

#[test]
fn a_row_with_a_duration_is_not_probed() {
    assert!(!needs_probe(&row(Some(210 * SEC))));
}

#[test]
fn a_row_without_a_duration_is_probed() {
    assert!(needs_probe(&row(None)));
}

#[test]
fn a_blank_title_alone_does_not_trigger_a_probe() {
    let mut t = row(Some(SEC));
    t.title = String::new();
    assert!(
        !needs_probe(&t),
        "duration is the signal; a title can be blank on a fully scanned row"
    );
}

#[test]
fn a_variable_bitrate_mode_survives_the_ffi_buffer() {
    let mut t = LibTrack::default();
    t.path = "/tmp/x.flac".to_string();
    t.bitrate_mode = Some("Variable".to_string());
    let out = SparkampLibTrack::from_lib_track(&t, on_disk());
    assert_eq!(decode(&out.bitrate_mode), "Variable");
}

#[test]
fn a_legacy_abbreviation_crosses_as_a_word() {
    let mut t = LibTrack::default();
    t.path = "/tmp/x.mp3".to_string();
    t.bitrate_mode = Some("VBR".to_string());
    let out = SparkampLibTrack::from_lib_track(&t, on_disk());
    assert_eq!(decode(&out.bitrate_mode), "Variable");
    t.bitrate_mode = Some("CBR".to_string());
    let out = SparkampLibTrack::from_lib_track(&t, on_disk());
    assert_eq!(decode(&out.bitrate_mode), "Constant");
}

#[test]
fn a_file_crosses_with_what_is_known_of_it() {
    let mut t = lib_track(7, "Song", Some(3 * SEC));
    t.year = Some(2001);
    t.rg_album_gain = Some(-2_000_000);
    t.last_scanned = Some("2026-01-01".to_string());
    let out = SparkampLibTrack::from_lib_track(&t, FileFacts { read_only: true, missing: true });
    assert_eq!(out.id, 7);
    assert_eq!(decode(&out.path), "/music/7.mp3");
    assert_eq!(decode(&out.title), "Song");
    assert_eq!(out.year, 2001);
    assert_eq!(out.length, 3 * SEC as i64);
    assert_eq!((out.scanned, out.read_only, out.file_missing), (1, 1, 1));
    assert_eq!((out.rg_analyzed, out.rg_album_gain), (0, 0), "nothing was analyzed");
    t.title = None;
    t.rg_track_gain = Some(-1_000_000);
    let out = SparkampLibTrack::from_lib_track(&t, on_disk());
    assert_eq!(decode(&out.title), "7.mp3");
    assert_eq!((out.rg_analyzed, out.rg_album_gain), (1, -2_000_000));
}

/// One field of a C struct: its name, the width of an element and how many.
struct Field {
    name: &'static str,
    width: usize,
    count: usize,
}

/// The size of a struct under the C rules: each field starts at a multiple of
/// its width, and the whole is a multiple of the widest.
fn c_size(fields: &[Field]) -> usize {
    let mut at = 0usize;
    let mut widest = 1usize;
    for f in fields {
        widest = widest.max(f.width);
        at = at.div_ceil(f.width) * f.width;
        at += f.width * f.count;
    }
    at.div_ceil(widest) * widest
}

#[test]
fn the_album_struct_matches_its_header_declaration() {
    let album = SparkampAlbum::from_group(&AlbumGroup {
        album: String::new(),
        album_artist: String::new(),
        year: None,
        track_count: 0,
        artwork_path: None,
        is_no_album: false,
    });
    let declared = [
        Field { name: "album", width: 1, count: 256 },
        Field { name: "album_artist", width: 1, count: 256 },
        Field { name: "artwork_path", width: 1, count: 512 },
        Field { name: "year", width: 8, count: 1 },
        Field { name: "track_count", width: 8, count: 1 },
        Field { name: "has_year", width: 1, count: 1 },
        Field { name: "is_no_album", width: 1, count: 1 },
    ];
    let held = [
        std::mem::size_of_val(&album.album),
        std::mem::size_of_val(&album.album_artist),
        std::mem::size_of_val(&album.artwork_path),
        std::mem::size_of_val(&album.year),
        std::mem::size_of_val(&album.track_count),
        std::mem::size_of_val(&album.has_year),
        std::mem::size_of_val(&album.is_no_album),
    ];
    for (d, h) in declared.iter().zip(held.iter()) {
        assert_eq!(d.width * d.count, *h, "{}", d.name);
    }
    assert_eq!(std::mem::size_of::<SparkampAlbum>(), c_size(&declared));
}

#[test]
fn the_library_track_struct_matches_its_header_declaration() {
    let out = SparkampLibTrack::from_lib_track(&LibTrack::default(), on_disk());
    assert_eq!(out.path.len(), 512);
    assert_eq!(out.title.len(), 256);
    assert_eq!(out.genre.len(), 64);
    assert_eq!(out.bpm.len(), 32);
    assert_eq!(out.comment.len(), 512);
    assert_eq!(out.artwork_path.len(), 512);
    assert_eq!(out.bitrate_mode.len(), 16);
}

#[test]
fn a_duplicate_is_cut_after_its_last_byte_that_fits() {
    let mut t = lib_track(1, &"é".repeat(200), None);
    t.artist = Some("a".repeat(300));
    let out = SparkampDedupTrack::from_lib_track(&t);
    assert_eq!(out.title[253], 0xA9);
    assert_eq!(out.title[254], 0xC3, "half a character");
    assert_eq!(out.title[255], 0);
    assert_eq!((out.artist[254], out.artist[255]), (b'a', 0));
}

#[test]
fn the_dedupe_structs_match_their_header_declarations() {
    let t = SparkampDedupTrack::from_lib_track(&lib_track(1, "a", None));
    assert_eq!((t.path.len(), t.title.len(), t.artist.len()), (512, 256, 256));
    assert_eq!(std::mem::size_of_val(&t.duration), 8);
    assert_eq!(std::mem::size_of::<SparkampDedupTrack>(), 1032);
}

#[test]
fn progress_reads_back_while_a_scan_runs() {
    let mut job = ScanJob::new();
    assert_eq!(sparkamp_ml_scan_progress(Some(&job)), (0, 0));
    job.start();
    job.note(3, 4_000_000_000);
    assert_eq!(sparkamp_ml_scan_progress(Some(&job)), (3, 4_000_000_000));
    assert_eq!(sparkamp_ml_scan_is_running(Some(&job)), 1);
    sparkamp_ml_cancel_scan(&mut job);
    assert!(job.cancel);
    job.finish();
    assert_eq!(sparkamp_ml_scan_progress(Some(&job)), (0, 0), "nothing runs");
    assert_eq!(sparkamp_ml_scan_is_running(Some(&job)), 0);
}

#[test]
fn a_folder_is_registered_then_noted_then_read() {
    let mut ctx = test_ctx();
    ctx.config.media_library.remove_missing_on_rescan = true;
    let mut job = ScanJob::new();
    let step = sparkamp_ml_add_folder(
        Some(&ctx),
        &mut job,
        FolderEvent::Asked { open: true, wanted: text("/music") },
    );
    let path = match step {
        FolderStep::Register { path } => path,
        _ => panic!("the folder is registered first"),
    };
    let step = sparkamp_ml_add_folder(
        Some(&ctx),
        &mut job,
        FolderEvent::Registered { number: Some(5), path },
    );
    match step {
        FolderStep::NoteFiles { id, path, remove_missing } => {
            assert_eq!((id, path.as_str(), remove_missing), (5, "/music", true));
        }
        _ => panic!("its files are noted next"),
    }
    assert!(!job.running);
    let step = sparkamp_ml_add_folder(Some(&ctx), &mut job, FolderEvent::Noted { id: 5, ok: true });
    assert!(matches!(step, FolderStep::ReadFiles { id: 5 }));
    assert!(job.running);
    let step = sparkamp_ml_add_folder(
        Some(&ctx),
        &mut job,
        FolderEvent::Registered { number: None, path: "/x".to_string() },
    );
    assert!(matches!(step, FolderStep::Stop));
}

#[test]
fn a_rescan_compacts_only_after_everything_was_read() {
    let mut ctx = test_ctx();
    ctx.config.media_library.compact_on_rescan = true;
    let mut job = ScanJob::new();
    assert!(sparkamp_ml_rescan_all(Some(&ctx), false, &mut job).is_none());
    let plan = match sparkamp_ml_rescan_all(Some(&ctx), true, &mut job) {
        Some(p) => p,
        None => panic!("an open library is rescanned"),
    };
    assert!(plan.compact_after && job.running);
    assert_eq!(rescan_next(RescanEvent::Walked(0), 2, plan, &mut job), RescanStep::Walk(0));
    sparkamp_ml_cancel_scan(&mut job);
    assert_eq!(rescan_next(RescanEvent::Walked(1), 2, plan, &mut job), RescanStep::ReadAll);
    assert_eq!(rescan_next(RescanEvent::ReadAll(true), 2, plan, &mut job), RescanStep::Compact);
    assert_eq!(rescan_next(RescanEvent::Compacted, 2, plan, &mut job), RescanStep::Done);
    assert!(!job.running);
    job.start();
    assert_eq!(rescan_next(RescanEvent::ReadAll(false), 2, plan, &mut job), RescanStep::Done);
}

#[test]
fn one_gain_analysis_runs_at_a_time() {
    let mut ctx = test_ctx();
    ctx.config.playback.replaygain.write_tags = true;
    let mut job = ScanJob::new();
    assert_eq!(
        sparkamp_rg_analyze_missing(Some(&ctx), true, &mut job, false),
        Some(RgStart::Unavailable)
    );
    assert_eq!(
        sparkamp_rg_analyze_missing(Some(&ctx), true, &mut job, true),
        Some(RgStart::Begun { write_tags: true })
    );
    assert_eq!(
        sparkamp_rg_analyze_selection(Some(&ctx), true, Some(&vec![1]), &mut job, true),
        Some(RgStart::Refused)
    );
    job.finish();
    assert_eq!(
        sparkamp_rg_analyze_selection(Some(&ctx), true, Some(&Vec::new()), &mut job, true),
        None
    );
}

#[test]
fn a_page_of_rows_starts_and_ends_inside_the_list() {
    let tracks = vec![lib_track(1, "a", None), lib_track(2, "b", None), lib_track(3, "c", None)];
    let facts = vec![on_disk(), on_disk(), on_disk()];
    let ids = |offset: i32, limit: i32| -> Vec<i64> {
        sparkamp_ml_get_tracks(&tracks, &facts, offset, limit).iter().map(|t| t.id).collect()
    };
    assert_eq!(ids(1, 1), vec![2]);
    assert_eq!(ids(1, 50), vec![2, 3]);
    assert_eq!(ids(9, 5), Vec::<i64>::new());
    assert_eq!(ids(-1, 5), Vec::<i64>::new());
    assert_eq!(ids(0, 0), Vec::<i64>::new());
}

#[test]
fn a_view_asks_for_what_its_search_and_column_say() {
    assert!(matches!(track_query(&CText::Null, &text(""), 0), TrackQuery::All));
    assert!(matches!(track_query(&text("x"), &CText::Null, 0), TrackQuery::Search(_)));
    match track_query(&text("x"), &text("artist"), 1) {
        TrackQuery::SearchSorted { query, column, descending } => {
            assert_eq!((query.as_str(), column.as_str(), descending), ("x", "artist", true));
        }
        _ => panic!("both are given"),
    }
    assert!(matches!(
        track_query(&CText::Invalid, &text("year"), 0),
        TrackQuery::AllSorted { .. }
    ));
}

#[test]
fn albums_cross_up_to_the_limit() {
    let g = |name: &str| AlbumGroup {
        album: name.to_string(),
        album_artist: String::new(),
        year: None,
        track_count: 1,
        artwork_path: None,
        is_no_album: false,
    };
    let groups = vec![g("a"), g("b")];
    assert_eq!(sparkamp_ml_albums(&groups, 1).len(), 1);
    assert_eq!(decode(&sparkamp_ml_albums(&groups, 9)[1].album), "b");
    assert!(sparkamp_ml_albums(&groups, -3).is_empty());
}

#[test]
fn library_files_come_with_what_is_known_of_them() {
    let mut ctx = test_ctx();
    let found = vec![lib_track(4, "four", Some(SEC)), lib_track(9, "nine", None)];
    let unread = sparkamp_ml_add_tracks_to_playlist(Some(&mut ctx), &vec![9, 77, 4], &found);
    assert_eq!(ctx.playlist.len(), 2);
    let titles: Vec<String> = (0..2)
        .map(|i| ctx.playlist.track(i).map(|t| t.title.clone()).unwrap_or_default())
        .collect();
    assert_eq!(titles, vec!["nine", "four"]);
    assert_eq!(unread.len(), 1);
    assert_eq!(unread[0].1, "/music/9.mp3");
    assert_ne!(unread[0].0, 0);
}

#[test]
fn a_saved_playlist_takes_the_place_of_the_list() {
    let mut ctx = test_ctx();
    ctx.playlist.add(row(None));
    sparkamp_queue_toggle(Some(&mut ctx), 0);
    let unread =
        sparkamp_ml_set_current_playlist(Some(&mut ctx), Some(&vec![lib_track(1, "a", Some(SEC))]));
    assert!(unread.is_empty());
    assert_eq!(ctx.playlist.len(), 1);
    assert_eq!(sparkamp_queue_count(Some(&ctx)), 0, "what was queued went with the old list");
    assert!(sparkamp_ml_set_current_playlist(Some(&mut ctx), None).is_empty());
    assert_eq!(ctx.playlist.len(), 1);
}

#[test]
fn folders_are_found_by_their_path() {
    let folders = vec![
        Folder { id: 3, path: "/a".to_string() },
        Folder { id: 8, path: "/b".to_string() },
    ];
    assert_eq!(sparkamp_ml_folder_count(Some(&folders)), 2);
    assert_eq!(sparkamp_ml_folder_path(Some(&folders), 1), Some("/b".to_string()));
    assert_eq!(sparkamp_ml_folder_path(Some(&folders), -1), None);
    assert_eq!(sparkamp_ml_remove_folder(Some(&folders), &text("/b")), Some(8));
    assert_eq!(sparkamp_ml_remove_folder(Some(&folders), &text("/c")), None);
    let kept = vec![Some(false), None];
    assert!(!sparkamp_ml_folder_recurse(Some(&folders), &kept, &text("/a")));
    assert!(sparkamp_ml_folder_recurse(Some(&folders), &kept, &text("/b")));
}

#[test]
fn a_list_of_paths_passes_over_what_is_no_text() {
    let list = vec![text("/a"), CText::Invalid, CText::Null, text("/b")];
    assert_eq!(
        sparkamp_ml_add_files(true, Some(&list)),
        Some(vec!["/a".to_string(), "/b".to_string()])
    );
    assert_eq!(sparkamp_ml_append_paths_to_playlist(true, Some(&list)), None, "a null refuses all");
    let list = vec![text("/a"), CText::Invalid];
    assert_eq!(
        sparkamp_ml_append_paths_to_playlist(true, Some(&list)),
        Some(vec!["/a".to_string()])
    );
    assert_eq!(sparkamp_ml_add_files(false, Some(&list)), None);
}

#[test]
fn a_new_playlist_has_the_extension_that_is_set() {
    let ctx = test_ctx();
    let save = match sparkamp_ml_create_playlist(Some(&ctx), true, &text("Mix")) {
        Some(s) => s,
        None => panic!("an open library saves"),
    };
    assert_eq!((save.target.as_str(), save.extension.as_str()), ("Mix", "m3u8"));
    assert!(save.paths.is_empty());
    let save = sparkamp_ml_save_playlist_as(Some(&ctx), true, &text("Mix"), Some(&vec![text("/a")]));
    assert_eq!(save.map(|s| s.paths), Some(vec!["/a".to_string()]));
    assert!(sparkamp_ml_save_playlist_as(Some(&ctx), true, &CText::Null, None).is_none());
}

#[test]
fn a_saved_playlist_is_known_by_its_place() {
    let lists = vec![SavedPlaylist { id: 11, name: "n".to_string(), path: "/n".to_string() }];
    assert_eq!(sparkamp_ml_playlist_id(Some(&lists), 0), 11);
    assert_eq!(sparkamp_ml_playlist_id(Some(&lists), 1), -1);
    assert_eq!(sparkamp_ml_playlist_id(None, 0), -1);
}

#[test]
fn a_played_file_is_added_only_where_nothing_owns_it() {
    let mut ctx = test_ctx();
    let path = text("/loose/a.mp3");
    assert!(!sparkamp_ml_note_played(Some(&ctx), true, &path, Owner::Nobody, Some(true)));
    ctx.config.media_library.auto_add_played = true;
    assert!(sparkamp_ml_note_played(Some(&ctx), true, &path, Owner::Nobody, Some(true)));
    assert!(!sparkamp_ml_note_played(Some(&ctx), true, &path, Owner::Folder, Some(true)));
    assert!(!sparkamp_ml_note_played(Some(&ctx), true, &path, Owner::Nobody, Some(false)));
}

#[test]
fn a_watch_report_crosses_with_its_kind() {
    let gone = WatchAction::Remove("/a".to_string());
    assert_eq!(sparkamp_ml_poll_watch_event(Some(&gone)), Some((1, Some("/a".to_string()))));
    let list = WatchAction::PlaylistUpsert("/l".to_string());
    assert_eq!(sparkamp_ml_poll_watch_event(Some(&list)), Some((2, Some("/l".to_string()))));
}

#[test]
fn a_search_for_duplicates_hands_out_its_groups_and_says_how_many() {
    let ctx = test_ctx();
    assert!(sparkamp_dedup_start(Some(&ctx), false, true).is_none());
    let mut search = match sparkamp_dedup_start(Some(&ctx), true, true) {
        Some(s) => s,
        None => panic!("an open library is searched"),
    };
    let groups = vec![
        DupeGroup {
            confidence: DupeConfidence::Probable,
            tracks: vec![lib_track(1, "a", Some(SEC)), lib_track(2, "a", None)],
        },
        DupeGroup { confidence: DupeConfidence::LessLikely, tracks: Vec::new() },
    ];
    match dedup_next(&mut search, &groups) {
        DedupStep::HandOut(g) => {
            assert_eq!(g.confidence, 0);
            assert_eq!(g.tracks.len(), 2);
            assert_eq!(decode(&g.tracks[0].title), "a");
            assert_eq!(g.tracks[0].duration, SEC);
        }
        DedupStep::Done(_) => panic!("a group is left"),
    }
    let mut other = search;
    match dedup_next(&mut search, &groups) {
        DedupStep::HandOut(g) => assert_eq!(g.confidence, 1),
        DedupStep::Done(_) => panic!("a group is left"),
    }
    assert!(matches!(dedup_next(&mut search, &groups), DedupStep::Done(2)));
    sparkamp_dedup_cancel(Some(&mut other));
    assert!(matches!(dedup_next(&mut other, &groups), DedupStep::Done(1)));
}

#[test]
fn a_group_joins_the_list_or_takes_its_place() {
    let mut ctx = test_ctx();
    ctx.playlist.add(row(None));
    let paths = vec![text("/a"), CText::Null, text("/gone")];
    let made = vec![Some(row(None)), Some(row(None)), None];
    sparkamp_dedup_add_to_playlist(Some(&mut ctx), &paths, &made);
    assert_eq!(ctx.playlist.len(), 2);
    sparkamp_dedup_replace_playlist(Some(&mut ctx), &paths, &made);
    assert_eq!(ctx.playlist.len(), 1);
    sparkamp_dedup_replace_playlist(Some(&mut ctx), &Vec::new(), &Vec::new());
    assert_eq!(ctx.playlist.len(), 1);
    assert_eq!(
        sparkamp_open_file_location(&text("/a/b.mp3"), Some("/a")),
        Some("/a".to_string())
    );
    assert_eq!(sparkamp_open_file_location(&text("/"), None), Some("/".to_string()));
}

#[test]
fn a_playlist_starts_empty() {
    assert!(Playlist::new().is_empty());
}

#[test]
fn a_probe_reports_under_the_row_it_was_of() {
    let (meta, found) = row_probed(42, Some(&row(None)), Some(SEC));
    match meta {
        Some(m) => assert_eq!((m.id, m.title.as_str()), (42, "Song")),
        None => panic!("the tags were read"),
    }
    assert_eq!(found.map(|d| (d.id, d.duration)), Some((42, SEC)));
    let (meta, found) = row_probed(42, None, None);
    assert!(meta.is_none() && found.is_none());
    assert_eq!(sparkamp_ml_remove_track(true, 3), Some(3));
    assert_eq!(sparkamp_ml_delete_playlist(false, 3), None);
}

#[test]
fn albums_are_asked_for_as_is_set() {
    let mut ctx = test_ctx();
    assert!(album_query(Some(&ctx), false, 1).is_none(), "the library is closed");
    match album_query(Some(&ctx), true, 2) {
        Some(q) => assert_eq!((q.sort, q.artist_as_album_artist), (AlbumSort::Year, false)),
        None => panic!("the library is open"),
    }
    ctx.config.media_library.artist_as_album_artist = true;
    match album_tracks_query(Some(&ctx), true, &CText::Null, &CText::Text("A".to_string())) {
        Some(q) => {
            assert_eq!((q.album.as_str(), q.album_artist.as_str()), ("", "A"));
            assert!(q.artist_as_album_artist);
        }
        None => panic!("the library is open"),
    }
}

#[test]
fn a_watch_event_is_applied_as_is_set() {
    let mut ctx = test_ctx();
    let gone = WatchAction::Remove("/m/a.mp3".to_string());
    assert!(watch_to_apply(Some(&ctx), false, Some(&gone)).is_none());
    assert!(watch_to_apply(Some(&ctx), true, None).is_none());
    assert_eq!(watch_to_apply(Some(&ctx), true, Some(&gone)).map(|a| a.1), Some(false));
    ctx.config.media_library.remove_missing_on_rescan = true;
    assert_eq!(watch_to_apply(Some(&ctx), true, Some(&gone)).map(|a| a.1), Some(true));
}
