use sparkamp::config::Config;
use sparkamp::engine::null::NullBackend;
use sparkamp::engine::Player;
use sparkamp::ffi::eq::{sparkamp_get_eq_band, sparkamp_get_preamp, sparkamp_set_eq_band, sparkamp_set_eq_enabled};
use sparkamp::ffi::media_library::{
    sparkamp_ml_folder_recurse, sparkamp_ml_poll_watch_event, sparkamp_ml_watch_rebuild,
};
use sparkamp::ffi::settings::{
    sparkamp_get_artist_as_album_artist, sparkamp_get_auto_add_played,
    sparkamp_get_compact_on_rescan, sparkamp_get_fadeout_secs, sparkamp_get_gnudb_email,
    sparkamp_get_last_search, sparkamp_get_play_stats_enabled, sparkamp_get_play_stats_mode,
    sparkamp_get_play_stats_percent, sparkamp_get_play_stats_seconds,
    sparkamp_get_remember_search, sparkamp_get_remove_missing_on_rescan,
    sparkamp_get_rescan_on_startup, sparkamp_get_show_remaining, sparkamp_get_skip_db_load,
    sparkamp_get_watch_folders, sparkamp_play_deadline_secs, sparkamp_set_artist_as_album_artist,
    sparkamp_set_auto_add_played, sparkamp_set_compact_on_rescan, sparkamp_set_fadeout_secs,
    sparkamp_set_gnudb_email, sparkamp_set_last_search, sparkamp_set_play_stats_enabled,
    sparkamp_set_play_stats_mode, sparkamp_set_play_stats_percent,
    sparkamp_set_play_stats_seconds, sparkamp_set_remember_search,
    sparkamp_set_remove_missing_on_rescan, sparkamp_set_rescan_on_startup,
    sparkamp_set_rg_enabled, sparkamp_set_show_remaining, sparkamp_set_skip_db_load,
    sparkamp_set_watch_folders,
};
use sparkamp::ffi::{sparkamp_create, Gains, SparkampCtx};
use sparkamp::text::CText;

fn test_ctx() -> SparkampCtx<NullBackend> {
    let player = match Player::<NullBackend>::open() {
        Ok(p) => p,
        Err(e) => panic!("{}", e.message),
    };
    sparkamp_create(player, None, None).0
}

const SEC: i64 = 1_000_000_000;

#[test]
fn watch_folders_round_trips_and_rebuild_is_a_safe_noop_without_ml() {
    let mut ctx = test_ctx();
    assert!(sparkamp_get_watch_folders(Some(&ctx)));
    sparkamp_set_watch_folders(Some(&mut ctx), false);
    assert!(!sparkamp_get_watch_folders(Some(&ctx)));
    assert!(sparkamp_ml_watch_rebuild(Some(&ctx), None, &Vec::new()).is_none());
    sparkamp_set_watch_folders(Some(&mut ctx), true);
    assert!(sparkamp_get_watch_folders(Some(&ctx)));
    assert!(sparkamp_ml_watch_rebuild(Some(&ctx), None, &Vec::new()).is_none());
}

#[test]
fn auto_add_played_round_trips() {
    let mut ctx = test_ctx();
    assert!(!sparkamp_get_auto_add_played(Some(&ctx)));
    sparkamp_set_auto_add_played(Some(&mut ctx), true);
    assert!(sparkamp_get_auto_add_played(Some(&ctx)));
}

#[test]
fn artist_as_album_artist_round_trips() {
    let mut ctx = test_ctx();
    assert!(!sparkamp_get_artist_as_album_artist(Some(&ctx)));
    sparkamp_set_artist_as_album_artist(Some(&mut ctx), true);
    assert!(sparkamp_get_artist_as_album_artist(Some(&ctx)));
}

#[test]
fn skip_db_load_round_trips() {
    let mut ctx = test_ctx();
    assert!(!sparkamp_get_skip_db_load(Some(&ctx)));
    sparkamp_set_skip_db_load(Some(&mut ctx), true);
    assert!(sparkamp_get_skip_db_load(Some(&ctx)));
}

#[test]
fn remove_missing_on_rescan_round_trips() {
    let mut ctx = test_ctx();
    assert!(!sparkamp_get_remove_missing_on_rescan(Some(&ctx)));
    sparkamp_set_remove_missing_on_rescan(Some(&mut ctx), true);
    assert!(sparkamp_get_remove_missing_on_rescan(Some(&ctx)));
}

#[test]
fn compact_on_rescan_round_trips() {
    let mut ctx = test_ctx();
    assert!(!sparkamp_get_compact_on_rescan(Some(&ctx)));
    sparkamp_set_compact_on_rescan(Some(&mut ctx), true);
    assert!(sparkamp_get_compact_on_rescan(Some(&ctx)));
}

#[test]
fn rescan_on_startup_round_trips() {
    let mut ctx = test_ctx();
    assert!(!sparkamp_get_rescan_on_startup(Some(&ctx)));
    sparkamp_set_rescan_on_startup(Some(&mut ctx), true);
    assert!(sparkamp_get_rescan_on_startup(Some(&ctx)));
    sparkamp_set_rescan_on_startup(Some(&mut ctx), false);
    assert!(!sparkamp_get_rescan_on_startup(Some(&ctx)));
}

#[test]
fn folder_recurse_defaults_true_without_ml() {
    assert!(sparkamp_ml_folder_recurse(
        None,
        &Vec::new(),
        &CText::Text("/no/such/folder".to_string())
    ));
}

#[test]
fn poll_watch_event_returns_null_without_a_running_watcher() {
    assert!(sparkamp_ml_poll_watch_event(None).is_none());
}

#[test]
fn play_deadline_null_ctx_is_negative() {
    assert_eq!(sparkamp_play_deadline_secs::<NullBackend>(None, 200 * SEC), None);
}

#[test]
fn play_deadline_disabled_is_negative() {
    let mut ctx = test_ctx();
    sparkamp_set_play_stats_enabled(Some(&mut ctx), false);
    assert_eq!(sparkamp_play_deadline_secs(Some(&ctx), 200 * SEC), None);
}

#[test]
fn play_stats_enabled_round_trips() {
    let mut ctx = test_ctx();
    assert!(sparkamp_get_play_stats_enabled(Some(&ctx)));
    sparkamp_set_play_stats_enabled(Some(&mut ctx), false);
    assert!(!sparkamp_get_play_stats_enabled(Some(&ctx)));
}

#[test]
fn play_stats_mode_round_trips() {
    let mut ctx = test_ctx();
    assert_eq!(sparkamp_get_play_stats_mode(Some(&ctx)), 0);
    sparkamp_set_play_stats_mode(Some(&mut ctx), 1);
    assert_eq!(sparkamp_get_play_stats_mode(Some(&ctx)), 1);
    sparkamp_set_play_stats_mode(Some(&mut ctx), 0);
    assert_eq!(sparkamp_get_play_stats_mode(Some(&ctx)), 0);
}

#[test]
fn play_stats_seconds_round_trips() {
    let mut ctx = test_ctx();
    assert_eq!(sparkamp_get_play_stats_seconds(Some(&ctx)), 20);
    sparkamp_set_play_stats_seconds(Some(&mut ctx), 45);
    assert_eq!(sparkamp_get_play_stats_seconds(Some(&ctx)), 45);
}

#[test]
fn play_stats_percent_round_trips() {
    let mut ctx = test_ctx();
    assert_eq!(sparkamp_get_play_stats_percent(Some(&ctx)), 50);
    sparkamp_set_play_stats_percent(Some(&mut ctx), 75);
    assert_eq!(sparkamp_get_play_stats_percent(Some(&ctx)), 75);
}

#[test]
fn remember_search_round_trips() {
    let mut ctx = test_ctx();
    assert!(!sparkamp_get_remember_search(Some(&ctx)));
    sparkamp_set_remember_search(Some(&mut ctx), true);
    assert!(sparkamp_get_remember_search(Some(&ctx)));
}

#[test]
fn last_search_round_trips_per_view_and_defaults_to_empty() {
    let mut ctx = test_ctx();
    assert_eq!(sparkamp_get_last_search(Some(&ctx), Some("files")), Some(String::new()));
    sparkamp_set_last_search(Some(&mut ctx), Some("files"), Some("beatles"));
    assert_eq!(sparkamp_get_last_search(Some(&ctx), Some("files")), Some("beatles".to_string()));
    assert_eq!(sparkamp_get_last_search(Some(&ctx), Some("playlists")), Some(String::new()));
}

#[test]
fn play_deadline_reflects_seconds_mode_config() {
    let mut ctx = test_ctx();
    sparkamp_set_play_stats_seconds(Some(&mut ctx), 20);
    assert_eq!(sparkamp_play_deadline_secs(Some(&ctx), 200 * SEC), Some(20 * SEC as u128));
    assert_eq!(sparkamp_play_deadline_secs(Some(&ctx), 0), Some(20 * SEC as u128));
}

#[test]
fn the_time_mode_round_trips_through_the_ffi() {
    let mut cfg = Config::default();
    assert!(!cfg.display.show_remaining());
    cfg.display.set_show_remaining(true);
    assert_eq!(cfg.display.time_mode, "remaining");

    assert!(!sparkamp_get_show_remaining::<NullBackend>(None));
    sparkamp_set_show_remaining::<NullBackend>(None, true);
}

#[test]
fn a_fadeout_stays_in_its_range() {
    let mut ctx = test_ctx();
    sparkamp_set_fadeout_secs(Some(&mut ctx), 0);
    assert_eq!(sparkamp_get_fadeout_secs(Some(&ctx)), 1);
    sparkamp_set_fadeout_secs(Some(&mut ctx), 500);
    assert_eq!(sparkamp_get_fadeout_secs(Some(&ctx)), 30);
    sparkamp_set_fadeout_secs(Some(&mut ctx), 7);
    assert_eq!(sparkamp_get_fadeout_secs(Some(&ctx)), 7);
}

#[test]
fn the_retired_address_reads_as_none() {
    let mut ctx = test_ctx();
    sparkamp_set_gnudb_email(Some(&mut ctx), Some("  old@app.example  "));
    assert_eq!(
        sparkamp_get_gnudb_email(Some(&ctx), "old@app.example"),
        Some(String::new())
    );
    sparkamp_set_gnudb_email(Some(&mut ctx), Some("me@home.example"));
    assert_eq!(
        sparkamp_get_gnudb_email(Some(&ctx), "old@app.example"),
        Some("me@home.example".to_string())
    );
    sparkamp_set_gnudb_email(Some(&mut ctx), Some("a\0b@home.example"));
    assert_eq!(sparkamp_get_gnudb_email(Some(&ctx), "old@app.example"), None, "it cannot cross");
    sparkamp_set_gnudb_email(Some(&mut ctx), Some("me@home.example"));
    sparkamp_set_gnudb_email(Some(&mut ctx), Some("   "));
    assert_eq!(
        sparkamp_get_gnudb_email(Some(&ctx), "old@app.example"),
        Some("me@home.example".to_string())
    );
}

#[test]
fn normalization_reaches_the_player_when_it_is_switched_on() {
    let mut ctx = test_ctx();
    let complaint =
        sparkamp_set_rg_enabled(Some(&mut ctx), true, Gains { track: None, album: None });
    assert_eq!(complaint, None);
    assert!(ctx.player.backend().normalization().enabled);
}

#[test]
fn an_equalizer_that_is_off_leaves_the_sound_alone() {
    let mut ctx = test_ctx();
    sparkamp_set_eq_enabled(Some(&mut ctx), true);
    sparkamp_set_eq_band(Some(&mut ctx), 2, 5_000_000);
    assert_eq!(ctx.player.backend().eq().band(2), 5_000_000);
    sparkamp_set_eq_enabled(Some(&mut ctx), false);
    assert_eq!(ctx.player.backend().eq().band(2), 0);
    assert_eq!(sparkamp_get_eq_band(Some(&ctx), 2), 5_000_000);
    assert!(sparkamp_get_preamp(Some(&ctx)) > 0);
}
