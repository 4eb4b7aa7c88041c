use sparkamp::engine::backend::{MediaSource, EQ_BAND_DB_LIMIT, UNITY_PPB};
use sparkamp::engine::gst::{GstBackend, GuardStep, Plugins};
use sparkamp::engine::null::NullBackend;
use sparkamp::engine::{BusEvent, Player, PlayerState, RgChain, PREAMP_MAX, PREAMP_MIN};

const MS: u64 = 1_000_000;
const DB: i64 = 1_000_000;

fn player() -> Player<NullBackend> {
    match Player::<NullBackend>::open() {
        Ok(p) => p,
        Err(e) => panic!("{}", e.message),
    }
}

fn output_volume(p: &Player<NullBackend>) -> u64 {
    p.backend().output_gain().get()
}

fn installed_band(p: &Player<NullBackend>, band: usize) -> i64 {
    p.backend().eq().band(band)
}

fn chain(enabled: bool, clip_protection: bool, fallback_db: i64) -> RgChain {
    RgChain { enabled, clip_protection, fallback_db }
}

#[test]
fn position_usecs_converts_and_defaults() {
    let mut p = player();
    assert_eq!(p.position_usecs(), 0);
    p.set_position_for_test(1_500 * MS);
    assert_eq!(p.position_usecs(), 1_500_000);
}

#[test]
fn stop_after_current_flag_arms_and_takes_once() {
    let mut p = player();
    assert!(!p.stop_after_current());
    p.set_stop_after_current(true);
    assert!(p.stop_after_current());
    assert!(p.take_stop_after_current());
    assert!(!p.stop_after_current());
    assert!(!p.take_stop_after_current());
}

fn everything() -> Plugins {
    Plugins {
        decode: true,
        convert: true,
        volume: true,
        spectrum: true,
        equalizer: true,
        rgvolume: true,
        rglimiter: true,
    }
}

fn open_gst() -> GstBackend {
    match GstBackend::open_with_sink(everything()) {
        Ok((b, _)) => b,
        Err(e) => panic!("{}", e.message),
    }
}

fn count(depth: &mut i32, steps: &Vec<GuardStep>) {
    for s in steps {
        match s {
            GuardStep::Begin => *depth += 1,
            GuardStep::End => *depth -= 1,
        }
    }
}

#[test]
fn every_exit_from_a_cdda_session_releases_the_guard() {
    let mut depth = 0;
    let mut p = open_gst();

    count(&mut depth, &p.load(&MediaSource::parse("cdda://1?device=/dev/sr0"), false).guard);
    assert!(depth > 0, "a cdda load takes the guard");
    count(&mut depth, &p.set_state(PlayerState::Stopped));
    assert_eq!(depth, 0, "stop released it");

    count(&mut depth, &p.load(&MediaSource::parse("cdda://2?device=/dev/sr0"), false).guard);
    assert!(depth > 0);
    count(&mut depth, &p.load(&MediaSource::parse("file:///nonexistent.mp3"), false).guard);
    assert_eq!(depth, 0, "a non-cdda load released it");

    count(&mut depth, &p.load(&MediaSource::parse("cdda://3?device=/dev/sr0"), false).guard);
    count(&mut depth, &p.load(&MediaSource::parse("cdda://4?device=/dev/sr0"), false).guard);
    assert_eq!(depth, 1, "still one session, not two");

    count(&mut depth, &p.release_disc_guard());
    assert_eq!(depth, 0, "drop released it");
}

#[test]
fn playing_a_file_on_a_disc_raises_and_releases_the_guard() {
    let on_disc = |uri: &str| uri.replace("%20", " ").starts_with("file:///Volumes/Audio CD 1/");
    let mut depth = 0;
    let mut p = open_gst();
    let mut load = |p: &mut GstBackend, uri: &str| {
        let plan = p.load(&MediaSource::parse(uri), on_disc(uri));
        count(&mut depth, &plan.guard);
        depth
    };

    assert_eq!(load(&mut p, "file:///Users/me/Music/a.mp3"), 0, "an ordinary file takes nothing");
    assert_eq!(
        load(&mut p, "file:///Volumes/Audio%20CD%201/1%20Track%201.aiff"),
        1,
        "a file on the disc takes the guard"
    );
    assert_eq!(
        load(&mut p, "file:///Volumes/Audio%20CD%201/2%20Track%202.aiff"),
        1,
        "still one session"
    );
    assert_eq!(load(&mut p, "file:///Users/me/Music/a.mp3"), 0, "leaving the disc released it");
    assert_eq!(load(&mut p, "file:///Volumes/Audio%20CD%201/3%20Track%203.aiff"), 1);
    let mut left = 1;
    count(&mut left, &p.release_disc_guard());
    assert_eq!(left, 0, "drop released it");
}

#[test]
fn fadeout_ramps_down_then_stops_and_restores_the_volume() {
    let mut p = player();
    p.set_volume(800_000_000);
    p.set_state_for_test(PlayerState::Playing);

    p.begin_fadeout(0, 60 * MS);
    assert!(p.is_fading_out());

    assert!(!p.poll_fadeout(20 * MS), "still mid-ramp");
    let mid = output_volume(&p);
    assert!(mid < 800_000_000 && mid > 0, "attenuated but not silent: {mid}");

    assert!(p.poll_fadeout(80 * MS), "ramp expired, reports completion once");
    assert_eq!(p.state(), PlayerState::Stopped);
    assert!(!p.is_fading_out());
    assert_eq!(output_volume(&p), 800_000_000);
    assert!(!p.poll_fadeout(90 * MS), "completion is reported only once");
}

#[test]
fn fadeout_is_a_no_op_unless_playing() {
    let mut p = player();
    p.set_volume(700_000_000);

    p.begin_fadeout(0, 10 * MS);
    assert!(!p.is_fading_out(), "stopped player does not fade");

    p.set_state_for_test(PlayerState::Paused);
    p.begin_fadeout(0, 10 * MS);
    assert!(!p.is_fading_out(), "paused player does not fade");
    assert_eq!(output_volume(&p), 700_000_000);
}

#[test]
fn transport_cancels_a_fadeout_and_restores_the_volume() {
    let mut p = player();
    p.set_volume(600_000_000);
    p.set_state_for_test(PlayerState::Playing);

    p.begin_fadeout(0, 500 * MS);
    p.poll_fadeout(30 * MS);
    assert!(output_volume(&p) < 600_000_000, "ramp took hold");

    let _ = p.play();
    assert!(!p.is_fading_out());
    assert_eq!(output_volume(&p), 600_000_000);
}

#[test]
fn a_track_ending_mid_fade_abandons_the_ramp() {
    let mut p = player();
    p.set_volume(900_000_000);
    p.set_state_for_test(PlayerState::Playing);

    p.begin_fadeout(0, 500 * MS);
    p.poll_fadeout(30 * MS);

    p.set_state_for_test(PlayerState::Stopped);
    assert!(!p.poll_fadeout(40 * MS), "not reported as a fade completion");
    assert!(!p.is_fading_out());
    assert_eq!(output_volume(&p), 900_000_000);
}

#[test]
fn a_fade_is_linear() {
    let mut p = player();
    p.set_volume(UNITY_PPB as i64);
    p.set_state_for_test(PlayerState::Playing);
    p.begin_fadeout(0, 100 * MS);
    assert!(!p.poll_fadeout(25 * MS));
    assert_eq!(output_volume(&p), 750_000_000);
}

#[test]
fn a_fade_only_falls() {
    let mut p = player();
    p.set_volume(UNITY_PPB as i64);
    p.set_state_for_test(PlayerState::Playing);
    p.begin_fadeout(0, 100 * MS);
    let mut last = UNITY_PPB;
    for at in [0, 10, 10, 35, 60, 99] {
        assert!(!p.poll_fadeout(at * MS));
        assert!(output_volume(&p) <= last);
        last = output_volume(&p);
    }
    assert_eq!(last, 10_000_000);
}

#[test]
fn a_reshape_refused_mid_track_is_applied_by_the_next_load() {
    let mut p = player();
    p.backend_mut().defer_reshape(true);
    p.backend_mut().force_state(PlayerState::Playing);

    p.set_replaygain(chain(true, true, -6 * DB));
    assert!(p.rg_reload_pending(), "the backend asked for a reload");
    assert!(!p.backend().normalization().enabled, "nothing was reshaped while running");

    assert!(p.load("file:///nonexistent.mp3").is_ok());
    assert!(!p.rg_reload_pending(), "the load consumed the deferral");
    let applied = p.backend().normalization();
    assert!(applied.enabled);
    assert!(applied.clip_protection);
    assert_eq!(applied.fallback_db, -6 * DB);
}

#[test]
fn a_backend_that_applies_now_never_asks_for_a_reload() {
    let mut p = player();
    p.backend_mut().force_state(PlayerState::Playing);

    p.set_replaygain(chain(true, true, -6 * DB));
    assert!(!p.rg_reload_pending());
    assert!(p.backend().normalization().enabled);
}

#[test]
fn a_primed_track_gain_becomes_this_track_s_fallback() {
    let mut p = player();
    p.set_replaygain(chain(true, false, -3 * DB));

    p.set_rg_db_gain(Some(-11_500_000));
    assert!(p.load("file:///a.mp3").is_ok());
    assert_eq!(p.backend().normalization().fallback_db, -11_500_000);

    assert!(p.load("file:///b.mp3").is_ok());
    assert_eq!(p.backend().normalization().fallback_db, -3 * DB);
}

#[test]
fn album_mode_crosses_the_seam_as_part_of_the_whole_picture() {
    let mut p = player();
    p.set_replaygain(chain(true, false, 0));

    p.set_rg_album_mode(true);
    assert!(p.backend().normalization().album_mode);
    assert!(p.backend().normalization().enabled, "shape untouched");

    p.set_rg_album_mode(false);
    assert!(!p.backend().normalization().album_mode);
}

#[test]
fn an_eos_from_the_backend_stops_the_player() {
    let mut p = player();
    assert!(p.play().is_ok());
    assert_eq!(p.state(), PlayerState::Playing);

    p.backend_mut().post_event(BusEvent::Eos);
    assert_eq!(p.poll_bus(), Some(BusEvent::Eos));
    assert_eq!(p.state(), PlayerState::Stopped);
    assert_eq!(p.poll_bus(), None, "the event is delivered exactly once");
}

#[test]
fn set_eq_band_clamps_to_plus_minus_limit() {
    let mut p = player();

    p.set_eq_band(3, 99 * DB);
    assert_eq!(p.get_eq_band(3), EQ_BAND_DB_LIMIT);
    assert_eq!(installed_band(&p, 3), EQ_BAND_DB_LIMIT);

    p.set_eq_band(3, -99 * DB);
    assert_eq!(p.get_eq_band(3), -EQ_BAND_DB_LIMIT);
    assert_eq!(installed_band(&p, 3), -EQ_BAND_DB_LIMIT);

    p.set_eq_band(3, 4_500_000);
    assert_eq!(p.get_eq_band(3), 4_500_000);
    assert_eq!(installed_band(&p, 3), 4_500_000);
}

#[test]
fn set_eq_band_out_of_range_is_a_no_op() {
    let mut p = player();
    p.set_eq_band(10, 6 * DB);
    p.set_eq_band(usize::MAX, 6 * DB);
    for b in 0..10 {
        assert_eq!(p.get_eq_band(b), 0);
        assert_eq!(installed_band(&p, b), 0);
    }
}

#[test]
fn get_eq_band_out_of_range_reads_zero() {
    let p = player();
    assert_eq!(p.get_eq_band(10), 0);
    assert_eq!(p.get_eq_band(usize::MAX), 0);
}

#[test]
fn apply_eq_bands_clamps_and_leaves_uncovered_bands_alone() {
    let mut p = player();
    p.set_eq_band(9, 7 * DB);

    p.apply_eq_bands(&[99 * DB, -99 * DB, 2 * DB]);

    assert_eq!(p.get_eq_band(0), EQ_BAND_DB_LIMIT);
    assert_eq!(p.get_eq_band(1), -EQ_BAND_DB_LIMIT);
    assert_eq!(p.get_eq_band(2), 2 * DB);
    for b in 3..9 {
        assert_eq!(p.get_eq_band(b), 0);
    }
    assert_eq!(p.get_eq_band(9), 7 * DB);
    assert_eq!(
        p.backend().eq().as_db(),
        &[EQ_BAND_DB_LIMIT, -EQ_BAND_DB_LIMIT, 2 * DB, 0, 0, 0, 0, 0, 0, 7 * DB],
        "the whole curve reaches the backend, not just the changed bands"
    );
}

#[test]
fn apply_eq_bands_ignores_entries_past_the_tenth() {
    let mut p = player();
    p.apply_eq_bands(&[DB; 14]);
    for b in 0..10 {
        assert_eq!(p.get_eq_band(b), DB);
        assert_eq!(installed_band(&p, b), DB);
    }
}

#[test]
fn volume_and_preamp_compose_multiplicatively_on_the_output() {
    let mut p = player();
    p.set_volume(500_000_000);
    p.set_preamp(1_400_000_000);
    assert_eq!(output_volume(&p), 700_000_000);

    p.set_volume(250_000_000);
    assert_eq!(output_volume(&p), 350_000_000);
}

#[test]
fn the_level_is_the_product_of_what_was_last_set() {
    let mut p = player();
    assert_eq!(output_volume(&p), UNITY_PPB);
    p.set_preamp(1_200_000_000);
    p.set_volume(900_000_000);
    p.set_preamp(1_500_000_000);
    p.set_volume(500_000_000);
    assert_eq!(output_volume(&p), 750_000_000);
}

#[test]
fn set_preamp_clamps_to_the_configured_range() {
    let mut p = player();
    p.set_volume(UNITY_PPB as i64);

    p.set_preamp(99_000_000_000);
    assert_eq!(output_volume(&p), PREAMP_MAX);

    p.set_preamp(0);
    assert_eq!(output_volume(&p), PREAMP_MIN);
}

#[test]
fn pausing_toggles_between_playing_and_paused() {
    let mut p = player();
    assert!(p.load("file:///a.mp3").is_ok());
    assert!(p.play().is_ok());
    assert!(p.toggle_pause().is_ok());
    assert_eq!(p.state(), PlayerState::Paused);
    assert!(p.toggle_pause().is_ok());
    assert_eq!(p.state(), PlayerState::Playing);
    assert!(p.stop().is_ok());
    assert_eq!(p.state(), PlayerState::Stopped);
}

#[test]
fn a_plasma_frame_is_drawn_from_the_track_as_it_stands() {
    let mut p = player();
    p.set_position_for_test(3_000 * MS);
    let input = p.render_granite();
    assert_eq!(input.position, 3_000 * MS);
    assert!(!input.active);
    assert_eq!(input.samples.len(), 1024);
}

#[test]
fn the_level_follows_what_was_last_set_across_fades_and_curves() {
    let mut p = player();
    p.set_state_for_test(PlayerState::Playing);
    p.set_volume(500_000_000);
    p.begin_fadeout(0, 1_000 * MS);
    p.poll_fadeout(500 * MS);
    p.set_preamp(2_000_000_000);
    p.set_eq_band(3, 6 * DB);
    assert_eq!(output_volume(&p), 375_000_000);
    p.cancel_fadeout();
    p.apply_eq_bands(&[DB, DB]);
    assert_eq!(output_volume(&p), 750_000_000);
    p.set_volume(250_000_000);
    assert_eq!(output_volume(&p), 375_000_000);
}
