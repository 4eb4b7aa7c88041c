use sparkamp::engine::analysis::Analysis;
use sparkamp::engine::backend::{
    Amplitude, Applied, EqCurve, MediaSource, Normalization, EQ_BAND_DB_LIMIT, UNITY_PPB,
};
use sparkamp::engine::gst::{
    captured, handle_message, left_channel, poll_event, s16_ppb, sample_format, BusMessage, GstBackend,
    Plugins, SampleFormat, Stage, Step,
};
use sparkamp::engine::{BusEvent, PlayerState};

const DB: i64 = 1_000_000;

#[test]
fn amplitude_clamps_negatives_and_nan_to_silence() {
    assert_eq!(Amplitude::linear(-1_000_000_000), Amplitude::silent());
    assert_eq!(Amplitude::linear(1_000_000_000), Amplitude::unity());
    assert_eq!(Amplitude::linear(500_000_000).get(), 500_000_000);
}

#[test]
fn amplitude_allows_gain_above_unity() {
    assert_eq!(Amplitude::linear(1_500_000_000).get(), 1_500_000_000);
}

#[test]
fn eq_curve_clamps_each_band_to_the_limit() {
    let c = EqCurve::flat().with_band(3, 99 * DB);
    assert_eq!(c.band(3), EQ_BAND_DB_LIMIT);

    let c = c.with_band(3, -99 * DB);
    assert_eq!(c.band(3), -EQ_BAND_DB_LIMIT);

    let c = c.with_band(3, 4_500_000);
    assert_eq!(c.band(3), 4_500_000);
}

#[test]
fn eq_curve_ignores_an_out_of_range_band() {
    let c = EqCurve::flat().with_band(10, 6 * DB).with_band(usize::MAX, 6 * DB);
    assert_eq!(c, EqCurve::flat());
}

#[test]
fn eq_curve_reads_zero_past_the_tenth_band() {
    assert_eq!(EqCurve::flat().band(10), 0);
    assert_eq!(EqCurve::flat().band(usize::MAX), 0);
}

#[test]
fn with_bands_clamps_and_leaves_uncovered_bands_alone() {
    let c = EqCurve::flat().with_band(9, 7 * DB).with_bands(&[99 * DB, -99 * DB, 2 * DB]);

    assert_eq!(c.band(0), EQ_BAND_DB_LIMIT);
    assert_eq!(c.band(1), -EQ_BAND_DB_LIMIT);
    assert_eq!(c.band(2), 2 * DB);
    for b in 3..9 {
        assert_eq!(c.band(b), 0);
    }
    assert_eq!(c.band(9), 7 * DB, "a band the slice did not cover is untouched");
}

#[test]
fn with_bands_ignores_entries_past_the_tenth() {
    let c = EqCurve::flat().with_bands(&[DB; 14]);
    assert_eq!(c.as_db(), &[DB; 10]);
}

#[test]
fn media_source_parses_a_plain_uri_verbatim() {
    assert_eq!(
        MediaSource::parse("file:///music/a.mp3"),
        MediaSource::Uri("file:///music/a.mp3".to_string())
    );
}

#[test]
fn media_source_lifts_the_cdda_device_out_of_the_uri() {
    match MediaSource::parse("cdda://3?device=/dev/sr0") {
        MediaSource::CdTrack { track, device } => {
            assert_eq!(track, "3");
            assert_eq!(device.as_deref(), Some("/dev/sr0"));
        }
        other => panic!("expected a CdTrack, got {other:?}"),
    }
}

#[test]
fn a_disc_uri_without_a_device_has_none() {
    match MediaSource::parse("cdda://12") {
        MediaSource::CdTrack { track, device } => {
            assert_eq!(track, "12");
            assert_eq!(device, None);
        }
        other => panic!("expected a CdTrack, got {other:?}"),
    }
}

#[test]
fn magnitudes_normalize_onto_zero_to_one() {
    let mut a = Analysis::new(10, 1024);
    let mut tap = a.tap();
    tap.push_magnitudes_db(&[-60 * DB, -30 * DB, 0]);
    a.absorb(&mut tap);

    let m = a.magnitudes();
    assert_eq!(m.len(), 3);
    assert!(m[0] < m[1] && m[1] < m[2], "order preserved: {m:?}");
    assert!(m.iter().all(|v| *v <= UNITY_PPB), "in range: {m:?}");
}

#[test]
fn a_flat_magnitude_frame_reads_as_silence() {
    let mut a = Analysis::new(10, 1024);
    let mut tap = a.tap();
    tap.push_magnitudes_db(&[-40 * DB; 6]);
    a.absorb(&mut tap);
    assert!(a.magnitudes().iter().all(|&v| v == 0));
}

#[test]
fn an_empty_magnitude_frame_is_ignored() {
    let mut a = Analysis::new(10, 1024);
    let mut tap = a.tap();
    tap.push_magnitudes_db(&[]);
    a.absorb(&mut tap);
    assert!(!a.has_magnitudes());
}

#[test]
fn the_tap_accepts_any_pcm_length() {
    let mut a = Analysis::new(10, 8192);
    let mut tap = a.tap();
    tap.push_pcm(&[500_000_000; 1024]);
    tap.push_pcm(&[250_000_000; 4410]);
    a.absorb(&mut tap);
    assert_eq!(a.waveform(64).len(), 64);
}

#[test]
fn a_steady_signal_survives_the_scope() {
    let mut a = Analysis::new(10, 8192);
    let mut tap = a.tap();
    tap.push_pcm(&[-244_140_625; 4000]);
    a.absorb(&mut tap);
    assert!(a.waveform(64).iter().all(|&v| v == -244_140_625));
    assert!(a.waveform(5000).iter().all(|&v| v == 0), "too little has arrived");
}

#[test]
fn the_scope_is_smoothed_over_five_samples() {
    let mut a = Analysis::new(10, 8192);
    let mut tap = a.tap();
    tap.push_pcm(&[0, 0, 100, 0, 0]);
    a.absorb(&mut tap);
    assert_eq!(a.waveform(5), vec![33, 25, 20, 25, 33]);
}

#[test]
fn a_tap_gathers_as_much_as_its_scope_keeps() {
    let mut a = Analysis::new(10, 4);
    let mut tap = a.tap();
    tap.push_pcm(&[9, 9, 9]);
    tap.push_pcm(&[100, 100, 100, 100]);
    a.absorb(&mut tap);
    assert_eq!(a.waveform(4), vec![100; 4]);

    let mut wide = Analysis::new(10, 8);
    tap.push_pcm(&[9, 9, 100, 100, 100, 100]);
    wide.absorb(&mut tap);
    assert_eq!(wide.waveform(5), vec![0; 5], "four samples came across");
    assert_eq!(wide.waveform(4), vec![100; 4]);
}

#[test]
fn bars_ease_towards_their_magnitudes() {
    let mut a = Analysis::new(2, 16);
    let mut tap = a.tap();
    tap.push_magnitudes_db(&[0, 10 * DB]);
    a.absorb(&mut tap);
    assert_eq!(*a.magnitudes(), vec![0, UNITY_PPB / 2]);
    tap.push_magnitudes_db(&[0, 10 * DB]);
    tap.push_magnitudes_db(&[0, 10 * DB, 0]);
    a.absorb(&mut tap);
    assert_eq!(*a.magnitudes(), vec![0, 875_000_000, 0]);
}

#[test]
fn level_and_scale_of_a_frame_do_not_show() {
    let shown = |frame: &[i64]| {
        let mut a = Analysis::new(3, 16);
        let mut tap = a.tap();
        tap.push_magnitudes_db(frame);
        a.absorb(&mut tap);
        a.magnitudes().clone()
    };
    let plain = shown(&[-60 * DB, -45 * DB, 0]);
    assert_eq!(plain, shown(&[-50 * DB, -35 * DB, 10 * DB]));
    assert_eq!(plain, shown(&[-120 * DB, -90 * DB, 0]));
}

#[test]
fn a_frame_counts_until_the_next_rest() {
    let mut a = Analysis::new(3, 16);
    let mut tap = a.tap();
    tap.push_magnitudes_db(&[0, DB]);
    a.absorb(&mut tap);
    a.reset_waveform();
    assert!(a.has_magnitudes());
    a.clear();
    assert!(!a.has_magnitudes());
    a.absorb(&mut tap);
    assert!(!a.has_magnitudes(), "the tap was emptied");
}

fn plugins() -> Plugins {
    Plugins {
        decode: true,
        convert: true,
        volume: true,
        spectrum: false,
        equalizer: true,
        rgvolume: true,
        rglimiter: true,
    }
}

fn rg_backend() -> GstBackend {
    match GstBackend::open_with_sink(plugins()) {
        Ok((b, _)) => b,
        Err(e) => panic!("{}", e.message),
    }
}

fn want(enabled: bool, clip_protection: bool, fallback_db: i64) -> Normalization {
    Normalization { enabled, clip_protection, fallback_db, album_mode: false }
}

#[test]
fn rg_chain_full_shape() {
    let mut b = rg_backend();
    let plan = b.set_normalization(want(true, true, -6 * DB), true);
    assert_eq!(plan.applied, Applied::Now);
    assert!(plan.steps.contains(&Step::Add(Stage::RgVolume)), "rgvolume inserted");
    assert!(plan.steps.contains(&Step::Add(Stage::RgLimiter)), "rglimiter inserted");
    assert!(plan.steps.contains(&Step::Link(Stage::RgVolume, Stage::RgLimiter)));
    assert!(plan.steps.contains(&Step::Link(Stage::RgLimiter, Stage::Volume)));
    match plan.live {
        Some(live) => assert_eq!(live.fallback_db, -6 * DB),
        None => panic!("the gain is written"),
    }
}

#[test]
fn rg_chain_no_limiter_shape() {
    let mut b = rg_backend();
    let plan = b.set_normalization(want(true, false, 0), true);
    assert_eq!(plan.applied, Applied::Now);
    assert!(b.shape().rg_volume);
    assert!(!b.shape().rg_limiter);
    assert!(plan.steps.contains(&Step::Link(Stage::RgVolume, Stage::Volume)));
}

#[test]
fn rg_disable_restores_direct_link() {
    let mut b = rg_backend();
    assert_eq!(b.set_normalization(want(true, true, -6 * DB), true).applied, Applied::Now);
    let plan = b.set_normalization(want(false, false, -6 * DB), true);
    assert_eq!(plan.applied, Applied::Now);
    assert!(!b.shape().rg_volume);
    assert!(!b.shape().rg_limiter);
    assert!(plan.steps.contains(&Step::Link(Stage::Convert, Stage::Volume)));
}

#[test]
fn rg_album_mode_is_live_no_rebuild() {
    let mut b = rg_backend();
    assert_eq!(b.set_normalization(want(true, false, 0), true).applied, Applied::Now);

    let album = Normalization { album_mode: true, ..want(true, false, 0) };
    let plan = b.set_normalization(album, false);
    assert_eq!(plan.applied, Applied::Now);
    assert!(plan.steps.is_empty(), "the same element, not a rebuilt one");
    assert_eq!(plan.live.map(|n| n.album_mode), Some(true));

    let plan = b.set_normalization(want(true, false, 0), false);
    assert_eq!(plan.applied, Applied::Now);
    assert_eq!(plan.live.map(|n| n.album_mode), Some(false));
}

#[test]
fn rg_relink_defers_until_a_playing_pipeline_reloads() {
    let mut b = rg_backend();
    let source = MediaSource::parse("file:///tmp/a.wav");
    b.load(&source, false);
    b.set_state(PlayerState::Playing);

    let plan = b.set_normalization(want(true, true, -6 * DB), false);
    assert_eq!(plan.applied, Applied::AtNextLoad);
    assert!(!b.shape().rg_volume, "must not relink a running pipeline");

    let plan = b.load(&source, false);
    assert!(b.shape().rg_volume, "the next load applies what was deferred");
    assert_eq!(plan.live.map(|n| n.fallback_db), Some(-6 * DB));
    b.set_state(PlayerState::Stopped);
}

#[test]
fn an_installation_without_a_decoder_opens_nothing() {
    assert!(GstBackend::open_with_sink(Plugins { decode: false, ..plugins() }).is_err());
    assert!(GstBackend::open_with_sink(Plugins { rgvolume: false, ..plugins() }).is_ok());
}

#[test]
fn the_waveform_probe_captures_pcm_from_a_playing_pipeline() {
    let mut data: Vec<u8> = Vec::new();
    for _ in 0..4096 {
        data.extend_from_slice(&8_000i16.to_le_bytes());
    }
    let format = match sample_format("S16LE") {
        Some(f) => f,
        None => panic!("sixteen-bit samples are captured"),
    };
    let words = left_channel(&data, format, 1);
    let samples: Vec<i64> = words.iter().map(|w| s16_ppb(*w)).collect();

    let mut analysis = Analysis::new(64, 8192);
    let mut tap = analysis.tap();
    tap.push_pcm(&samples);
    let mut queue = vec![BusMessage::Other, BusMessage::Eos];
    assert_eq!(poll_event(&mut queue, &mut tap), Some(BusEvent::Eos));
    analysis.absorb(&mut tap);

    let captured = analysis.waveform(64);
    let expected = 8_000.0 / 32_768.0;
    assert!(
        captured.iter().all(|s| (*s as f64 / 1e9 - expected).abs() < 0.01),
        "the probe fed the ring the samples that were decoded: {captured:?}"
    );
}

#[test]
fn a_fresh_path_plays_at_unity() {
    let mut b = rg_backend();
    assert_eq!(b.output_gain(), Amplitude::unity());
    b.set_output_gain(Amplitude::silent());
    assert_eq!(b.output_gain(), Amplitude::silent());
}

#[test]
fn a_deferred_change_leaves_the_running_path_alone() {
    let mut b = rg_backend();
    let plan = b.set_normalization(want(true, true, 0), false);
    assert_eq!(plan.applied, Applied::AtNextLoad);
    assert!(plan.steps.is_empty());
    let source = MediaSource::parse("file:///a.mp3");
    assert_eq!(b.load(&source, false).steps.len(), 6);
    assert!(b.load(&source, false).steps.is_empty(), "nothing waits any more");
}

/// Makes steps on the links that stand, each from one stage to the next.
fn make(links: &mut Vec<(Stage, Stage)>, steps: &[Step]) {
    for step in steps {
        match step {
            Step::Link(a, b) => links.push((*a, *b)),
            Step::Unlink(a, b) => links.retain(|l| *l != (*a, *b)),
            _ => {}
        }
    }
}

#[test]
fn a_reshape_that_fails_halfway_leaves_a_path_that_plays() {
    for made in 0..=6 {
        let mut b = rg_backend();
        let have = b.shape();
        let mut links = vec![
            (Stage::Convert, Stage::Volume),
            (Stage::Volume, Stage::Equalizer),
            (Stage::Equalizer, Stage::Sink),
        ];
        let plan = b.set_normalization(want(true, true, -3 * DB), true);
        assert_eq!(plan.steps.len(), 6);
        make(&mut links, &plan.steps[..made]);
        let repair = b.reshape_failed(have, made);
        make(&mut links, &repair);
        let mut at = Stage::Convert;
        while let Some(l) = links.iter().find(|l| l.0 == at) {
            at = l.1;
        }
        assert_eq!(at, Stage::Sink, "after {made} steps");
        assert!(!b.normalization().enabled, "what is not there is not claimed");
        assert_eq!(b.normalization().fallback_db, -3 * DB);
    }
}

#[test]
fn a_stage_that_does_not_build_any_more_is_left_out() {
    let mut b = rg_backend();
    b.found(true, false);
    b.set_normalization(want(true, true, 0), true);
    assert!(b.normalization().enabled);
    assert!(!b.normalization().clip_protection);
}

#[test]
fn only_the_left_channel_is_captured() {
    let data: [u8; 8] = [1, 0, 9, 0, 2, 0, 9, 0];
    assert_eq!(left_channel(&data, SampleFormat::S16, 2), vec![1, 2]);
    assert_eq!(sample_format("F32LE"), Some(SampleFormat::F32));
    assert_eq!(sample_format("U8"), None);
    assert_eq!(s16_ppb(0x8000), -1_000_000_000);
}

#[test]
fn a_bus_message_is_an_event_or_a_frame() {
    let analysis = Analysis::new(4, 16);
    let mut tap = analysis.tap();
    assert_eq!(handle_message(&BusMessage::Error, &mut tap), Some(BusEvent::Error));
    assert_eq!(handle_message(&BusMessage::Spectrum(vec![-10 * DB]), &mut tap), None);
}

#[test]
fn a_capture_takes_the_left_channel_of_a_known_format() {
    let data: [u8; 6] = [1, 0, 9, 0, 2, 0];
    match captured(Some("S16LE"), Some(2), &data) {
        Some((f, words)) => {
            assert_eq!(f, SampleFormat::S16);
            assert_eq!(words, vec![1]);
        }
        None => panic!("a complete frame is there"),
    }
    assert_eq!(captured(Some("S16LE"), Some(0), &data).map(|c| c.1), Some(vec![1, 9, 2]));
    assert!(captured(Some("S24LE"), Some(2), &data).is_none());
    assert!(captured(None, None, &data).is_none());
    assert!(captured(Some("F64LE"), None, &data).is_none());
}

#[test]
fn a_first_frame_shows_its_shape_and_not_its_level() {
    let shown = |db: &[i64]| {
        let mut a = Analysis::new(8, 16);
        let mut tap = a.tap();
        tap.push_magnitudes_db(db);
        a.absorb(&mut tap);
        a.magnitudes().clone()
    };
    let quiet = shown(&[-60 * DB, -45 * DB, -30 * DB]);
    assert_eq!(quiet, shown(&[-20 * DB, 10 * DB, 40 * DB]));
    assert_eq!(quiet, vec![0, 250_000_000, 500_000_000]);
}
