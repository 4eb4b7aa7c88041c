use sparkamp::engine::null::NullBackend;
use sparkamp::engine::Player;
use sparkamp::ffi::dedupe::sparkamp_dedup_replace_playlist;
use sparkamp::config::RepeatMode;
use sparkamp::ffi::playback::{pick_following, sparkamp_advance_after_eos, sparkamp_load_config};
use sparkamp::ffi::playlist::sparkamp_playlist_mark_broken;
use sparkamp::ffi::playlist::{sparkamp_playlist_clear, sparkamp_playlist_move, sparkamp_playlist_remove};
use sparkamp::ffi::queue::{
    sparkamp_queue_clear, sparkamp_queue_count, sparkamp_queue_entry_index, sparkamp_queue_move,
    sparkamp_queue_play_now, sparkamp_queue_position, sparkamp_queue_toggle,
};
use sparkamp::ffi::{sparkamp_create, Gains, SparkampCtx};
use sparkamp::model::{Playlist, Track};
use sparkamp::text::CText;

fn track(i: usize) -> Track {
    Track {
        path: format!("/fake/{i}.mp3"),
        title: format!("T{i}"),
        artist: String::new(),
        album_artist: String::new(),
        album: String::new(),
        duration: None,
        broken: false,
        read_only: false,
        id: 0,
    }
}

fn ctx_with_tracks(n: usize) -> SparkampCtx<NullBackend> {
    let player = match Player::<NullBackend>::open() {
        Ok(p) => p,
        Err(e) => panic!("{}", e.message),
    };
    let mut playlist = Playlist::new();
    for i in 0..n {
        playlist.add(track(i));
    }
    sparkamp_create(player, None, Some(playlist)).0
}

fn no_gains() -> Gains {
    Gains { track: None, album: None }
}

#[test]
fn the_queue_goes_ahead_of_what_would_follow() {
    let mut ctx = ctx_with_tracks(6);
    for row in [4, 2, 5] {
        sparkamp_queue_toggle(Some(&mut ctx), row);
    }
    sparkamp_playlist_mark_broken(Some(&mut ctx), 2);
    let mut played = Vec::new();
    for _ in 0..3 {
        assert_eq!(sparkamp_advance_after_eos(Some(&mut ctx), &vec![1], no_gains()), None);
        played.push(ctx.playlist.current_index());
    }
    assert_eq!(played, vec![4, 5, 1], "queued rows in their order, and then the list");
    assert_eq!(sparkamp_queue_count(Some(&ctx)), 1);
    assert_eq!(sparkamp_queue_position(Some(&ctx), 2), 1, "a broken row stays queued");
}

#[test]
fn a_stop_and_a_repeat_of_the_song_leave_the_queue() {
    let mut ctx = ctx_with_tracks(3);
    sparkamp_queue_toggle(Some(&mut ctx), 2);
    ctx.player.set_stop_after_current(true);
    sparkamp_advance_after_eos(Some(&mut ctx), &vec![1], no_gains());
    assert_eq!(ctx.playlist.current_index(), 0);
    assert_eq!(sparkamp_queue_count(Some(&ctx)), 1);
    ctx.config.playback.repeat_mode = RepeatMode::Song;
    assert_eq!(pick_following(&ctx, &vec![1]), Some(0));
    sparkamp_advance_after_eos(Some(&mut ctx), &vec![1], no_gains());
    assert_eq!(ctx.playlist.current_index(), 0);
    assert_eq!(sparkamp_queue_count(Some(&ctx)), 1);
    ctx.config.playback.repeat_mode = RepeatMode::Playlist;
    assert_eq!(pick_following(&ctx, &vec![1]), Some(2));
    sparkamp_advance_after_eos(Some(&mut ctx), &Vec::new(), no_gains());
    assert_eq!(ctx.playlist.current_index(), 2);
    assert_eq!(sparkamp_queue_count(Some(&ctx)), 0);
}

#[test]
fn a_queued_row_that_follows_goes_into_the_shuffle_history() {
    let mut ctx = ctx_with_tracks(4);
    ctx.shuffle_state.enabled = true;
    sparkamp_queue_toggle(Some(&mut ctx), 3);
    sparkamp_advance_after_eos(Some(&mut ctx), &vec![1], no_gains());
    assert_eq!(ctx.shuffle_state.history, vec![3]);
}

#[test]
fn playing_a_queued_entry_gives_up_an_armed_stop() {
    let mut ctx = ctx_with_tracks(3);
    sparkamp_queue_toggle(Some(&mut ctx), 1);
    ctx.player.set_stop_after_current(true);
    assert_eq!(sparkamp_queue_play_now(Some(&mut ctx), 7, no_gains()), None);
    assert!(ctx.player.stop_after_current(), "there is no such place in the queue");
    assert_eq!(sparkamp_queue_play_now(Some(&mut ctx), 0, no_gains()), None);
    assert_eq!(ctx.playlist.current_index(), 1);
    assert!(!ctx.player.stop_after_current());
    assert_eq!(sparkamp_queue_count(Some(&ctx)), 0);
}

#[test]
fn toggle_and_position_round_trip() {
    let mut ctx = ctx_with_tracks(3);
    assert_eq!(sparkamp_queue_position(Some(&ctx), 1), -1);
    sparkamp_queue_toggle(Some(&mut ctx), 2);
    sparkamp_queue_toggle(Some(&mut ctx), 0);
    assert_eq!(sparkamp_queue_position(Some(&ctx), 2), 1);
    assert_eq!(sparkamp_queue_position(Some(&ctx), 0), 2);
    assert_eq!(sparkamp_queue_count(Some(&ctx)), 2);
    assert_eq!(sparkamp_queue_entry_index(Some(&ctx), 0), 2);
    assert_eq!(sparkamp_queue_entry_index(Some(&ctx), 1), 0);
    sparkamp_queue_toggle(Some(&mut ctx), 2);
    assert_eq!(sparkamp_queue_position(Some(&ctx), 2), -1);
    assert_eq!(sparkamp_queue_position(Some(&ctx), 0), 1, "survivors renumber");
}

#[test]
fn removing_a_queued_row_prunes_the_queue() {
    let mut ctx = ctx_with_tracks(3);
    sparkamp_queue_toggle(Some(&mut ctx), 0);
    sparkamp_queue_toggle(Some(&mut ctx), 1);
    assert_eq!(sparkamp_queue_count(Some(&ctx)), 2);
    sparkamp_playlist_remove(Some(&mut ctx), 1);
    assert_eq!(sparkamp_queue_count(Some(&ctx)), 1, "removed row leaves the queue");
    assert_eq!(sparkamp_queue_position(Some(&ctx), 0), 1);
}

#[test]
fn clearing_the_playlist_empties_the_queue() {
    let mut ctx = ctx_with_tracks(3);
    sparkamp_queue_toggle(Some(&mut ctx), 0);
    sparkamp_queue_toggle(Some(&mut ctx), 2);
    sparkamp_playlist_clear(Some(&mut ctx));
    assert_eq!(sparkamp_queue_count(Some(&ctx)), 0);
}

#[test]
fn reorder_moves_the_badge_with_its_track() {
    let mut ctx = ctx_with_tracks(3);
    sparkamp_queue_toggle(Some(&mut ctx), 0);
    assert_eq!(sparkamp_queue_position(Some(&ctx), 0), 1);
    sparkamp_playlist_move(Some(&mut ctx), 0, 2);
    assert_eq!(sparkamp_queue_position(Some(&ctx), 0), -1);
    assert_eq!(sparkamp_queue_position(Some(&ctx), 2), 1, "badge followed the track");
}

#[test]
fn bulk_pushed_entries_get_distinct_ids_before_queueing() {
    let mut ctx = ctx_with_tracks(0);
    ctx.playlist.push(track(0));
    ctx.playlist.push(track(1));
    sparkamp_queue_toggle(Some(&mut ctx), 0);
    assert_eq!(sparkamp_queue_position(Some(&ctx), 0), 1);
    assert_eq!(
        sparkamp_queue_position(Some(&ctx), 1),
        -1,
        "the second unstamped entry must not share the first's identity"
    );
}

#[test]
fn move_reorders_the_queue_and_no_ops_at_the_ends() {
    let mut ctx = ctx_with_tracks(3);
    for i in 0..3 {
        sparkamp_queue_toggle(Some(&mut ctx), i);
    }
    sparkamp_queue_move(Some(&mut ctx), 0, -1);
    assert_eq!(sparkamp_queue_entry_index(Some(&ctx), 0), 0);
    sparkamp_queue_move(Some(&mut ctx), 2, 1);
    assert_eq!(sparkamp_queue_entry_index(Some(&ctx), 2), 2);
    sparkamp_queue_move(Some(&mut ctx), 2, -1);
    assert_eq!(sparkamp_queue_entry_index(Some(&ctx), 1), 2);
    assert_eq!(sparkamp_queue_entry_index(Some(&ctx), 2), 1);
}

#[test]
fn a_move_goes_as_far_as_it_says_and_stops_at_the_ends() {
    let mut ctx = ctx_with_tracks(3);
    for i in 0..3 {
        sparkamp_queue_toggle(Some(&mut ctx), i);
    }
    let shown = |ctx: &SparkampCtx<NullBackend>| {
        (0..3).map(|k| sparkamp_queue_entry_index(Some(ctx), k)).collect::<Vec<i32>>()
    };
    sparkamp_queue_move(Some(&mut ctx), 2, -2);
    assert_eq!(shown(&ctx), vec![2, 0, 1]);
    sparkamp_queue_move(Some(&mut ctx), 1, i32::MAX);
    assert_eq!(shown(&ctx), vec![2, 1, 0]);
    sparkamp_queue_move(Some(&mut ctx), 2, i32::MIN);
    assert_eq!(shown(&ctx), vec![0, 2, 1]);
    sparkamp_queue_move(Some(&mut ctx), 3, -1);
    sparkamp_queue_move(Some(&mut ctx), -1, 1);
    sparkamp_queue_move(Some(&mut ctx), 1, 0);
    assert_eq!(shown(&ctx), vec![0, 2, 1]);
}

#[test]
fn a_null_context_has_no_queue() {
    assert_eq!(sparkamp_queue_count::<NullBackend>(None), 0);
    assert_eq!(sparkamp_queue_position::<NullBackend>(None, 0), -1);
    sparkamp_queue_toggle::<NullBackend>(None, 0);
    sparkamp_queue_clear::<NullBackend>(None);
}

#[test]
fn a_replaced_list_takes_its_queue_with_it() {
    let mut ctx = ctx_with_tracks(3);
    for i in 0..3 {
        sparkamp_queue_toggle(Some(&mut ctx), i);
    }
    let paths = vec![CText::Text("/a.mp3".to_string())];
    sparkamp_dedup_replace_playlist(Some(&mut ctx), &paths, &vec![Some(track(9))]);
    assert_eq!(sparkamp_queue_count(Some(&ctx)), 0);
    assert_eq!(ctx.playlist.len(), 1);

    let mut ctx = ctx_with_tracks(3);
    sparkamp_queue_toggle(Some(&mut ctx), 2);
    let mut one = Playlist::new();
    one.add(track(7));
    sparkamp_load_config(Some(&mut ctx), None, Some(one));
    assert_eq!(sparkamp_queue_count(Some(&ctx)), 0, "the third entry is gone");
    assert_eq!(ctx.playlist.len(), 1);
}
