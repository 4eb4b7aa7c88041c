use sparkamp::engine::avf::{band_shape, floored, mono_samples, AvBackend, FilterKind, SpectrumWindow, SPECTRUM_FFT_SIZE};
use sparkamp::engine::backend::{Amplitude, Applied, EqCurve, MediaSource, Normalization, EQ_BAND_DB_LIMIT};
use sparkamp::engine::gst::GuardStep;
use sparkamp::engine::{BusEvent, PlayerState};

const MS: u64 = 1_000_000;
const RATE: u64 = 44_100_000;
const CHUNK: i64 = 4_096;
const DB: i64 = 1_000_000;

fn loaded() -> AvBackend {
    let mut b = AvBackend::open_with_output();
    assert!(b.load(&MediaSource::parse("file:///tmp/tone.wav"), false).is_ok());
    match b.opened("file:///tmp/tone.wav", 44_100, RATE, "44100", 2) {
        Ok(Some(_)) => b,
        _ => panic!("a second of audio is scheduled"),
    }
}

fn drive(b: &mut AvBackend, state: PlayerState) {
    assert!(b.begin_state(state).is_ok());
    b.finish_state(state);
}

#[test]
fn ten_bands_sit_at_the_declared_centres_with_shelves_on_the_edges() {
    const DECLARED_HZ: [u32; 10] = [29, 59, 119, 237, 474, 947, 1889, 3770, 7523, 15011];
    for i in 0..10 {
        let (kind, hz) = band_shape(i);
        assert_eq!(hz, DECLARED_HZ[i], "band {i} must sit where it is declared");
        assert_eq!(
            kind,
            match i {
                0 => FilterKind::LowShelf,
                9 => FilterKind::HighShelf,
                _ => FilterKind::Parametric,
            },
            "band {i}'s filter type"
        );
    }
}

#[test]
fn band_gains_reach_the_audio_unit_clamped_to_the_limit() {
    let curve = EqCurve::flat()
        .with_band(0, 99 * DB)
        .with_band(9, -99 * DB)
        .with_band(4, 4_500_000);
    let mut backend = AvBackend::open_with_output();
    assert_eq!(backend.eq(), EqCurve::flat());
    backend.set_eq(&curve);
    let unit = backend.eq();
    assert_eq!(unit.band(0), EQ_BAND_DB_LIMIT);
    assert_eq!(unit.band(9), -EQ_BAND_DB_LIMIT);
    assert_eq!(unit.band(4), 4_500_000);
    assert_eq!(unit.band(7), 0, "untouched bands stay flat");
}

#[test]
fn a_cd_track_is_refused_with_a_reason() {
    let mut backend = AvBackend::open_with_output();
    let refused = backend.load(
        &MediaSource::CdTrack { track: "3".to_string(), device: Some("/dev/sr0".to_string()) },
        false,
    );
    match refused {
        Err(e) => assert!(e.message.contains("CD"), "the error must name what it cannot do: {}", e.message),
        Ok(_) => panic!("there is no raw CD-audio reader"),
    }
}

#[test]
fn a_file_without_a_rate_is_refused_by_name() {
    let mut backend = AvBackend::open_with_output();
    match backend.opened("file:///tmp/odd.wav", 10, 0, "-1", 2) {
        Err(e) => assert_eq!(e.message, "file:///tmp/odd.wav reports a sample rate of -1"),
        Ok(_) => panic!("there is no rate"),
    }
}

#[test]
fn the_window_is_the_same_however_it_is_cut() {
    let samples: Vec<i64> = (0..5000).collect();
    let mut whole = SpectrumWindow::new();
    let mut cut = SpectrumWindow::new();
    let at_once = whole.feed(&samples).cloned();
    for part in samples.chunks(333) {
        let _ = cut.feed(&part.to_vec());
    }
    let in_parts = cut.feed(&Vec::new()).cloned();
    assert!(at_once.is_some());
    assert_eq!(at_once, in_parts);
}

#[test]
fn the_analyzer_absorbs_buffers_shorter_and_longer_than_its_window() {
    let mut analyzer = SpectrumWindow::new();
    let tone = |n: usize| -> Vec<i64> {
        (0..n)
            .map(|i| ((2.0 * std::f64::consts::PI * i as f64 / 32.0).sin() * 0.5e9) as i64)
            .collect()
    };

    assert!(
        analyzer.feed(&tone(100)).is_none(),
        "a short buffer contributes and waits rather than padding itself out"
    );
    assert!(
        analyzer.feed(&tone(SPECTRUM_FFT_SIZE)).is_some(),
        "the window fills from whatever arrived, however it was chopped up"
    );
    for length in [1, 100, 512, 1024, 4410] {
        match analyzer.feed(&tone(length)) {
            Some(window) => assert_eq!(window.len(), 512),
            None => panic!("a {length}-frame buffer produced no window"),
        }
    }
    assert_eq!(floored(None), -60 * DB);
    assert_eq!(floored(Some(-90 * DB)), -60 * DB);
    assert_eq!(floored(Some(-3 * DB)), -3 * DB);
}

#[test]
fn normalization_is_a_live_gain_that_applies_now() {
    let mut backend = loaded();
    backend.set_output_gain(Amplitude::unity());
    let before = backend.write_gain(Some(0));

    let applied = backend.set_normalization(Normalization {
        enabled: true,
        clip_protection: false,
        fallback_db: -6 * DB,
        album_mode: false,
    });
    assert_eq!(applied, Applied::Now, "a gain node needs no reload");
    assert_eq!(backend.write_gain(Some(0)), before - 6 * DB);

    let applied = backend.set_normalization(Normalization {
        enabled: false,
        clip_protection: false,
        fallback_db: -6 * DB,
        album_mode: false,
    });
    assert_eq!(applied, Applied::Now);
    assert_eq!(backend.write_gain(Some(0)), before, "disabling puts the level back");
}

#[test]
fn timeline_reports_the_seek_offset_plus_what_has_been_rendered() {
    let mut backend = loaded();

    let before = backend.timeline(None);
    assert_eq!(before.duration, Some(1_000 * MS), "one second of audio");

    assert!(backend.seek(500 * MS).is_ok());
    assert_eq!(
        backend.timeline(None).position,
        Some(500 * MS),
        "a seek moves the reported position before anything renders"
    );

    drive(&mut backend, PlayerState::Playing);
    let after = backend.timeline(Some(CHUNK));
    let expected = 0.5 + CHUNK as f64 / 44_100.0;
    match after.position {
        Some(ns) => assert!((ns as f64 / 1e9 - expected).abs() < 0.05, "{ns} vs {expected:.3}"),
        None => panic!("a loaded file has a position"),
    }
    assert_eq!(after.duration, before.duration, "duration does not move under the position");
}

#[test]
fn a_seek_past_the_end_reports_the_track_as_finished() {
    let mut backend = loaded();
    assert_eq!(backend.poll_event(), None, "a fresh load has nothing pending");
    assert!(backend.seek(5_000 * MS).is_ok());
    assert_eq!(backend.poll_event(), Some(BusEvent::Eos));
}

#[test]
fn pausing_preserves_the_position_and_stopping_returns_to_the_start() {
    let mut backend = loaded();
    drive(&mut backend, PlayerState::Playing);

    let playing = backend.timeline(Some(3 * CHUNK)).position;
    assert!(playing > Some(0), "something rendered");

    drive(&mut backend, PlayerState::Paused);
    assert_eq!(
        backend.timeline(None).position,
        playing,
        "a pause holds the position it stopped at"
    );

    drive(&mut backend, PlayerState::Playing);
    assert!(
        backend.timeline(Some(4 * CHUNK)).position > playing,
        "resuming carries on from there rather than starting over"
    );

    drive(&mut backend, PlayerState::Stopped);
    assert_eq!(
        backend.timeline(None).position,
        Some(0),
        "a stop rewinds to the start of the track"
    );
}

#[test]
fn end_of_track_posts_one_eos_and_a_stop_posts_none() {
    let mut backend = AvBackend::open_with_output();
    assert!(backend.load(&MediaSource::parse("file:///tmp/tone.wav"), false).is_ok());
    let first = match backend.opened("file:///tmp/tone.wav", 44_100, RATE, "44100", 2) {
        Ok(Some(s)) => s,
        _ => panic!("a second of audio is scheduled"),
    };
    drive(&mut backend, PlayerState::Playing);
    backend.segment_completed(first.generation);
    assert_eq!(backend.poll_event(), Some(BusEvent::Eos), "playing past the end posts an EOS");
    assert_eq!(backend.poll_event(), None, "exactly once");

    assert!(backend.load(&MediaSource::parse("file:///tmp/tone.wav"), false).is_ok());
    let second = match backend.opened("file:///tmp/tone.wav", 44_100, RATE, "44100", 2) {
        Ok(Some(s)) => s,
        _ => panic!("a second of audio is scheduled"),
    };
    drive(&mut backend, PlayerState::Playing);
    drive(&mut backend, PlayerState::Stopped);
    backend.segment_completed(second.generation);
    assert_eq!(backend.poll_event(), None, "a cancelled schedule is not a finished track");
}

#[test]
fn nothing_loaded_can_neither_play_nor_seek() {
    let mut backend = AvBackend::open_with_output();
    assert!(backend.begin_state(PlayerState::Playing).is_err());
    assert!(backend.seek(0).is_err());
    assert_eq!(backend.timeline(None).position, None);
}

#[test]
fn capture_reads_the_delivered_length_not_the_requested_one() {
    const DELIVERED: usize = 4410;
    let left: Vec<u32> = (0..DELIVERED).map(|i| (i as f32 / DELIVERED as f32).to_bits()).collect();
    let mono: Vec<f64> = mono_samples(Some(&left), DELIVERED, 1)
        .into_iter()
        .map(|w| f32::from_bits(w) as f64)
        .collect();
    assert_eq!(mono.len(), DELIVERED, "every delivered frame is captured");
    assert_eq!(mono[0], 0.0);
    assert!(
        (mono[DELIVERED - 1] - (DELIVERED - 1) as f64 / DELIVERED as f64).abs() < 1e-6,
        "the last frame is the last one delivered, not the 1024th"
    );
    assert!(mono.iter().all(|&s| s >= 0.0), "the left channel, not the right");

    let interleaved: Vec<u32> = vec![1, 9, 2, 9, 3];
    assert_eq!(mono_samples(Some(&interleaved), 3, 2), vec![1, 2, 3]);
    assert!(mono_samples(None, 5, 1).is_empty());
}

#[test]
fn stopping_gives_the_drive_back_whatever_the_state_was() {
    let mut backend = AvBackend::open_with_output();
    let begun = backend.load(&MediaSource::parse("file:///Volumes/CD/1.aiff"), true);
    assert!(matches!(begun, Ok(steps) if steps == vec![GuardStep::Begin]));
    assert!(matches!(backend.begin_state(PlayerState::Stopped), Ok(moves) if moves.is_empty()));
    assert!(backend.leave_drive(PlayerState::Paused).is_empty());
    assert!(backend.leave_drive(PlayerState::Playing).is_empty());
    assert_eq!(backend.leave_drive(PlayerState::Stopped), vec![GuardStep::End]);
    assert!(backend.leave_drive(PlayerState::Stopped).is_empty(), "once");
}
