use sparkamp::config::{PlaylistAddBehavior, RepeatMode};
use sparkamp::engine::backend::Timeline;
use sparkamp::engine::null::NullBackend;
use sparkamp::engine::{BusEvent, Player, PlayerState};
use sparkamp::ffi::media_library::sparkamp_playlist_file_missing;
use sparkamp::ffi::playback::{
    clamp_fraction, pick_following, pick_prev, sparkamp_advance_after_eos,
    sparkamp_cycle_repeat, sparkamp_get_duration, sparkamp_get_repeat_mode, sparkamp_get_state,
    sparkamp_get_volume, sparkamp_load_and_play, sparkamp_nav_next, sparkamp_nav_prev,
    sparkamp_pause, sparkamp_play, sparkamp_seek, sparkamp_set_volume, sparkamp_stop,
    sparkamp_toggle_shuffle,
};
use sparkamp::ffi::playlist::{
    rescan_rows_by_path, sparkamp_playlist_add_entry, sparkamp_playlist_current_index,
    sparkamp_playlist_get_duration, sparkamp_playlist_get_title, sparkamp_playlist_is_read_only,
    sparkamp_playlist_jump, sparkamp_playlist_len, sparkamp_playlist_move_many,
    sparkamp_playlist_reverse, sparkamp_playlist_sort, sparkamp_should_replace_on_add,
};
use sparkamp::ffi::{
    drain_events, position_report, remember_duration, seek_pending, settle, share, sparkamp_create,
    sparkamp_tick, DurationResult, Gains, MetaResult, SparkampCtx,
};
use sparkamp::model::{Playlist, Track};

fn track(i: usize) -> Track {
    Track {
        path: format!("/fake/{i}.mp3"),
        title: format!("T{i}"),
        artist: String::new(),
        album_artist: String::new(),
        album: String::new(),
        duration: None,
        broken: false,
        read_only: false,
        id: 0,
    }
}

fn ctx_with_tracks(n: usize) -> SparkampCtx<NullBackend> {
    let player = match Player::<NullBackend>::open() {
        Ok(p) => p,
        Err(e) => panic!("{}", e.message),
    };
    let mut playlist = Playlist::new();
    for i in 0..n {
        playlist.add(track(i));
    }
    sparkamp_create(player, None, Some(playlist)).0
}

fn no_gains() -> Gains {
    Gains { track: None, album: None }
}

#[test]
fn rescan_rows_matches_canonically_and_updates_duplicates() {
    let canonical = "/tmp/rescan/song.mp3".to_string();
    let make_row = || Track {
        path: canonical.clone(),
        title: "Stale".into(),
        artist: "Stale Artist".into(),
        album_artist: String::new(),
        album: "Stale Album".into(),
        duration: None,
        broken: false,
        read_only: false,
        id: 0,
    };
    let mut playlist = Playlist::new();
    playlist.push(make_row());
    playlist.push(make_row());
    let fresh = Track {
        path: canonical.clone(),
        title: "song".into(),
        artist: String::new(),
        album_artist: String::new(),
        album: String::new(),
        duration: None,
        broken: false,
        read_only: false,
        id: 0,
    };
    let resolved = vec![canonical.clone(), canonical.clone()];

    let updated = rescan_rows_by_path(
        &mut playlist,
        "/tmp/rescan/./song.mp3",
        &canonical,
        &resolved,
        Some(&fresh),
    );
    assert_eq!(updated, 2);
    let titles: Vec<String> = (0..2)
        .map(|i| playlist.track(i).map(|t| t.title.clone()).unwrap_or_default())
        .collect();
    assert_eq!(titles, vec!["song", "song"]);
    assert!(playlist.track(0).map(|t| t.artist.is_empty()).unwrap_or(false));

    let mut kept = match playlist.track(0) {
        Some(t) => t.clone(),
        None => panic!("a row"),
    };
    kept.title = "Keep".into();
    playlist.set_track(0, kept);
    assert_eq!(
        rescan_rows_by_path(
            &mut playlist,
            "/tmp/rescan/other.mp3",
            "/tmp/rescan/other.mp3",
            &resolved,
            Some(&fresh),
        ),
        0
    );
    assert_eq!(playlist.track(0).map(|t| t.title.clone()), Some("Keep".to_string()));
}

#[test]
fn playlist_sort_resets_shuffle_history() {
    let mut ctx = ctx_with_tracks(3);
    ctx.shuffle_state.enabled = true;
    ctx.shuffle_state.record_played(0);
    ctx.shuffle_state.record_played(2);
    assert!(ctx.shuffle_state.has_history(), "fixture must start with non-empty shuffle history");

    sparkamp_playlist_sort(Some(&mut ctx), 0);

    assert!(!ctx.shuffle_state.has_history(), "sort must reset shuffle history");
}

#[test]
fn jumping_to_a_track_cancels_stop_after_current() {
    let mut ctx = ctx_with_tracks(3);
    ctx.player.set_stop_after_current(true);

    sparkamp_playlist_jump(Some(&mut ctx), 1, no_gains());

    assert!(!ctx.player.stop_after_current(), "choosing a track to play must clear the arming");
}

#[test]
fn should_replace_on_add_maps_mode_onto_add_mode() {
    let mut ctx = ctx_with_tracks(1);

    ctx.config.behavior.playlist_add_behavior = PlaylistAddBehavior::Replace;
    assert_eq!(sparkamp_should_replace_on_add(Some(&ctx), 0), 1);
    assert_eq!(sparkamp_should_replace_on_add(Some(&ctx), 1), 0);
    assert_eq!(sparkamp_should_replace_on_add(Some(&ctx), 2), 1);
    assert_eq!(sparkamp_should_replace_on_add(Some(&ctx), 99), 1);

    ctx.config.behavior.playlist_add_behavior = PlaylistAddBehavior::Append;
    assert_eq!(sparkamp_should_replace_on_add(Some(&ctx), 0), 0);
    assert_eq!(sparkamp_should_replace_on_add(Some(&ctx), 2), 1);
}

#[test]
fn should_replace_on_add_null_ctx_returns_zero() {
    assert_eq!(sparkamp_should_replace_on_add::<NullBackend>(None, 2), 0);
}

#[test]
fn optical_rows_are_answered_without_touching_the_drive() {
    let ctx = ctx_with_tracks(2);
    assert_eq!(
        sparkamp_playlist_file_missing(Some(&ctx), 0, false, false),
        1,
        "a file that is not there reads as missing"
    );
    assert_eq!(
        sparkamp_playlist_is_read_only(Some(&ctx), 1, false, false),
        0,
        "a writable file is not read-only"
    );
    assert_eq!(
        sparkamp_playlist_file_missing(Some(&ctx), 0, true, false),
        0,
        "the mount is what makes a disc row visible; losing it loses the volume"
    );
    assert_eq!(sparkamp_playlist_is_read_only(Some(&ctx), 1, false, false), 0);
}

#[test]
fn a_jump_plays_the_row_it_names() {
    let mut ctx = ctx_with_tracks(3);
    assert_eq!(sparkamp_playlist_jump(Some(&mut ctx), 2, no_gains()), None);
    assert_eq!(sparkamp_playlist_current_index(Some(&ctx)), 2);
    assert_eq!(sparkamp_get_state(Some(&ctx)), 1);
    sparkamp_stop(Some(&mut ctx));
    assert_eq!(ctx.player.state(), PlayerState::Stopped);
}

#[test]
fn moving_rows_keeps_their_order() {
    let mut ctx = ctx_with_tracks(5);
    sparkamp_playlist_move_many(Some(&mut ctx), Some(&vec![3, 1]), 0);
    let titles: Vec<Option<String>> =
        (0..5).map(|i| sparkamp_playlist_get_title(Some(&ctx), i)).collect();
    let want: Vec<Option<String>> =
        ["T1", "T3", "T0", "T2", "T4"].iter().map(|t| Some(t.to_string())).collect();
    assert_eq!(titles, want);
    sparkamp_playlist_reverse(Some(&mut ctx));
    assert_eq!(sparkamp_playlist_get_title(Some(&ctx), 0), Some("T4".to_string()));
}

#[test]
fn a_disc_entry_needs_a_path_and_a_title() {
    let mut ctx = ctx_with_tracks(0);
    let row = sparkamp_playlist_add_entry(
        Some(&mut ctx),
        Some("cdda://1?device=/dev/sr0"),
        Some("Track 1"),
        None,
        None,
        100,
    );
    assert_eq!(row, 0);
    assert_eq!(sparkamp_playlist_get_duration(Some(&ctx), 0), Some(100_000_000_000));
    assert_eq!(
        sparkamp_playlist_add_entry(Some(&mut ctx), Some(""), Some("x"), None, None, 1),
        -1
    );
    assert_eq!(sparkamp_playlist_len(Some(&ctx)), 1);
}

#[test]
fn a_tick_lands_background_results_on_their_rows() {
    let mut ctx = ctx_with_tracks(3);
    let id = match ctx.playlist.track(1) {
        Some(t) => t.id,
        None => panic!("a row"),
    };
    let metas = vec![MetaResult {
        id,
        title: "Found".to_string(),
        artist: "Someone".to_string(),
        album_artist: String::new(),
    }];
    let found = vec![DurationResult { id, duration: 7_000_000_000 }];
    let report = sparkamp_tick(&mut ctx, &metas, &found, 0);
    assert!(report.events.is_empty());
    assert_eq!(sparkamp_playlist_get_title(Some(&ctx), 1), Some("Found".to_string()));
    assert_eq!(sparkamp_playlist_get_duration(Some(&ctx), 1), Some(7_000_000_000));
    assert_eq!(sparkamp_playlist_get_title(Some(&ctx), 0), Some("T0".to_string()));
}

#[test]
fn a_tick_hands_on_what_the_player_signals() {
    let mut ctx = ctx_with_tracks(1);
    sparkamp_play(Some(&mut ctx));
    ctx.player.backend_mut().post_event(BusEvent::Eos);
    let report = sparkamp_tick(&mut ctx, &Vec::new(), &Vec::new(), 0);
    assert_eq!(report.events, vec![BusEvent::Eos]);
    assert_eq!(sparkamp_get_state(Some(&ctx)), 0);
    assert_eq!(sparkamp_get_duration(Some(&ctx)), None);
}

#[test]
fn draining_hands_on_every_event_in_order() {
    let mut ctx = ctx_with_tracks(1);
    ctx.player.set_state_for_test(PlayerState::Playing);
    ctx.player.backend_mut().post_event(BusEvent::Error);
    ctx.player.backend_mut().post_event(BusEvent::Eos);
    assert_eq!(drain_events(&mut ctx), vec![BusEvent::Error, BusEvent::Eos]);
    assert_eq!(ctx.player.state(), PlayerState::Stopped);
    assert_eq!(ctx.player.poll_bus(), None);
    assert!(drain_events(&mut ctx).is_empty());
}

#[test]
fn a_pending_seek_waits_for_a_length() {
    let mut ctx = ctx_with_tracks(2);
    ctx.pending_seek = Some(250_000_000);
    seek_pending(&mut ctx, None);
    remember_duration(&mut ctx, None);
    assert_eq!(ctx.pending_seek, Some(250_000_000));
    assert_eq!(ctx.last_known_duration, None);
    seek_pending(&mut ctx, Some(60 * SECOND));
    remember_duration(&mut ctx, Some(60 * SECOND));
    assert_eq!(ctx.pending_seek, None);
    assert_eq!(sparkamp_playlist_get_duration(Some(&ctx), 0), Some(60 * SECOND));
    assert_eq!(sparkamp_playlist_get_duration(Some(&ctx), 1), None);
    let unknown = position_report(&ctx, Timeline { position: None, duration: None });
    assert_eq!((unknown.position, unknown.duration), (0, Some(60 * SECOND)));
    let known = Timeline { position: Some(15 * SECOND), duration: Some(61 * SECOND) };
    let said = position_report(&ctx, known);
    assert_eq!((said.position, said.duration), (15 * SECOND, Some(61 * SECOND)));
}

#[test]
fn the_end_of_a_tick_reports_where_the_player_is() {
    let mut ctx = ctx_with_tracks(1);
    ctx.player.set_position_for_test(3 * SECOND);
    let said = settle(&mut ctx);
    assert_eq!((said.position, said.duration), (3 * SECOND, None));
}

#[test]
fn a_seek_needs_a_length() {
    let mut ctx = ctx_with_tracks(1);
    sparkamp_seek(Some(&mut ctx), 250_000_000);
    assert_eq!(ctx.pending_seek, None);
    assert_eq!(clamp_fraction(-5), 0);
    assert_eq!(clamp_fraction(2_000_000_000), 1_000_000_000);
    assert_eq!(share(60_000_000_000, 250_000_000), 15_000_000_000);
}

#[test]
fn the_next_track_is_the_one_that_was_picked() {
    let mut ctx = ctx_with_tracks(3);
    assert_eq!(sparkamp_nav_next(Some(&mut ctx), Some(2), no_gains()), None);
    assert_eq!(sparkamp_playlist_current_index(Some(&ctx)), 2);
}

#[test]
fn repeat_comes_round_and_shuffle_toggles() {
    let mut ctx = ctx_with_tracks(1);
    let first = sparkamp_get_repeat_mode(Some(&ctx));
    for _ in 0..3 {
        sparkamp_cycle_repeat(Some(&mut ctx));
    }
    assert_eq!(sparkamp_get_repeat_mode(Some(&ctx)), first);
    let before = ctx.shuffle_state.enabled;
    sparkamp_toggle_shuffle(Some(&mut ctx));
    assert_ne!(ctx.shuffle_state.enabled, before);
}

#[test]
fn the_volume_reads_back() {
    let mut ctx = ctx_with_tracks(1);
    sparkamp_set_volume(Some(&mut ctx), 300_000_000);
    assert_eq!(sparkamp_get_volume(Some(&ctx)), 300_000_000);
}

const SECOND: u64 = 1_000_000_000;

#[test]
fn a_step_back_restarts_a_track_that_has_run() {
    let mut ctx = ctx_with_tracks(3);
    sparkamp_playlist_jump(Some(&mut ctx), 1, no_gains());
    assert_eq!(sparkamp_nav_prev(Some(&mut ctx), 5 * SECOND, no_gains()), None);
    assert_eq!(sparkamp_playlist_current_index(Some(&ctx)), 1);
    sparkamp_nav_prev(Some(&mut ctx), 5 * SECOND - 1, no_gains());
    assert_eq!(sparkamp_playlist_current_index(Some(&ctx)), 0);
    assert_eq!(sparkamp_get_state(Some(&ctx)), 1);
}

#[test]
fn a_step_back_from_the_first_row_comes_round_under_repeat() {
    let mut ctx = ctx_with_tracks(3);
    assert_eq!(pick_prev(&ctx, 0), None);
    ctx.config.playback.repeat_mode = RepeatMode::Playlist;
    assert_eq!(pick_prev(&ctx, 0), Some(2));
    ctx.shuffle_state.enabled = true;
    assert_eq!(pick_prev(&ctx, 0), None, "nothing was played before");
    ctx.shuffle_state.record_played(1);
    assert_eq!(pick_prev(&ctx, 0), None, "only the current one was");
    ctx.shuffle_state.record_played(0);
    assert_eq!(pick_prev(&ctx, 0), Some(1));
}

#[test]
fn back_walks_a_shuffled_playthrough_and_records_nothing() {
    let mut ctx = ctx_with_tracks(5);
    ctx.shuffle_state.enabled = true;
    sparkamp_play(Some(&mut ctx));
    sparkamp_nav_next(Some(&mut ctx), Some(3), no_gains());
    sparkamp_advance_after_eos(Some(&mut ctx), &vec![1], no_gains());
    assert_eq!(ctx.shuffle_state.history, vec![0, 3, 1]);
    sparkamp_nav_prev(Some(&mut ctx), 0, no_gains());
    assert_eq!(sparkamp_playlist_current_index(Some(&ctx)), 3);
    sparkamp_nav_prev(Some(&mut ctx), 6 * SECOND, no_gains());
    assert_eq!(sparkamp_playlist_current_index(Some(&ctx)), 3, "the track starts again");
    sparkamp_nav_prev(Some(&mut ctx), 0, no_gains());
    assert_eq!(sparkamp_playlist_current_index(Some(&ctx)), 0);
    assert_eq!(ctx.shuffle_state.history, vec![0, 3, 1]);
    sparkamp_nav_prev(Some(&mut ctx), 0, no_gains());
    assert_eq!(sparkamp_playlist_current_index(Some(&ctx)), 0, "there is nothing before it");
    sparkamp_nav_next(Some(&mut ctx), Some(4), no_gains());
    assert_eq!(ctx.shuffle_state.history, vec![0, 3, 1, 4]);
    sparkamp_nav_prev(Some(&mut ctx), 0, no_gains());
    assert_eq!(sparkamp_playlist_current_index(Some(&ctx)), 1);
}

#[test]
fn a_step_without_shuffle_leaves_the_history() {
    let mut ctx = ctx_with_tracks(3);
    sparkamp_play(Some(&mut ctx));
    sparkamp_nav_next(Some(&mut ctx), Some(1), no_gains());
    sparkamp_advance_after_eos(Some(&mut ctx), &vec![2], no_gains());
    assert_eq!(ctx.shuffle_state.history, vec![0]);
    ctx.shuffle_state.enabled = true;
    sparkamp_nav_next(Some(&mut ctx), Some(9), no_gains());
    sparkamp_nav_next(Some(&mut ctx), None, no_gains());
    assert_eq!(ctx.shuffle_state.history, vec![0], "a step that goes nowhere records nothing");
}

#[test]
fn a_step_while_stopped_only_moves() {
    let mut ctx = ctx_with_tracks(3);
    sparkamp_nav_next(Some(&mut ctx), Some(1), no_gains());
    assert_eq!(sparkamp_get_state(Some(&ctx)), 0);
    assert_eq!(sparkamp_playlist_current_index(Some(&ctx)), 1);
}

#[test]
fn the_end_of_a_track_skips_broken_rows() {
    let mut ctx = ctx_with_tracks(4);
    sparkamp::ffi::playlist::sparkamp_playlist_mark_broken(Some(&mut ctx), 1);
    assert_eq!(pick_following(&ctx, &vec![1, 9, 3]), Some(3));
    sparkamp_advance_after_eos(Some(&mut ctx), &vec![1, 9, 3], no_gains());
    assert_eq!(sparkamp_playlist_current_index(Some(&ctx)), 3);
    assert_eq!(sparkamp_get_state(Some(&ctx)), 1);
    assert_eq!(pick_following(&ctx, &vec![1]), None);
}

#[test]
fn repeat_of_the_song_plays_it_again() {
    let mut ctx = ctx_with_tracks(3);
    ctx.config.playback.repeat_mode = RepeatMode::Song;
    sparkamp_advance_after_eos(Some(&mut ctx), &vec![1], no_gains());
    assert_eq!(sparkamp_playlist_current_index(Some(&ctx)), 0);
    assert_eq!(sparkamp_get_state(Some(&ctx)), 1);
}

#[test]
fn an_armed_stop_holds_at_one_end() {
    let mut ctx = ctx_with_tracks(3);
    ctx.player.set_stop_after_current(true);
    sparkamp_advance_after_eos(Some(&mut ctx), &vec![1], no_gains());
    assert_eq!(sparkamp_playlist_current_index(Some(&ctx)), 0);
    assert_eq!(sparkamp_get_state(Some(&ctx)), 0);
    assert!(!ctx.player.stop_after_current());
    sparkamp_advance_after_eos(Some(&mut ctx), &vec![1], no_gains());
    assert_eq!(sparkamp_playlist_current_index(Some(&ctx)), 1);
}

#[test]
fn manual_transport_gives_up_an_armed_stop() {
    let mut ctx = ctx_with_tracks(3);
    ctx.player.set_stop_after_current(true);
    sparkamp_play(Some(&mut ctx));
    assert!(!ctx.player.stop_after_current(), "a play from the stop");
    ctx.player.set_stop_after_current(true);
    sparkamp_pause(Some(&mut ctx));
    sparkamp_play(Some(&mut ctx));
    assert!(ctx.player.stop_after_current(), "a resume goes on with the same track");
    sparkamp_nav_next(Some(&mut ctx), Some(1), no_gains());
    assert!(!ctx.player.stop_after_current(), "a step forward");
    ctx.player.set_stop_after_current(true);
    sparkamp_nav_prev(Some(&mut ctx), 0, no_gains());
    assert!(!ctx.player.stop_after_current(), "a step back");
    ctx.player.set_stop_after_current(true);
    sparkamp_load_and_play(Some(&mut ctx), Some("/music/a.mp3"));
    assert!(!ctx.player.stop_after_current(), "a file that was chosen");
    ctx.player.set_stop_after_current(true);
    sparkamp_stop(Some(&mut ctx));
    assert!(!ctx.player.stop_after_current(), "a stop");
}

#[test]
fn a_path_or_a_uri_is_played_at_once() {
    let mut ctx = ctx_with_tracks(0);
    assert_eq!(sparkamp_load_and_play(Some(&mut ctx), Some("/music/a b.mp3")), None);
    assert_eq!(sparkamp_get_state(Some(&ctx)), 1);
    assert_eq!(sparkamp_load_and_play(Some(&mut ctx), Some("file:///music/a.mp3")), None);
    assert_eq!(sparkamp_get_state(Some(&ctx)), 1);
}
