use sparkamp::disc::{freedb_discid, DiscToc, MediaInfo, MediaKind, OpticalDrive, TocTrack};
use sparkamp::disc_meta::XmcdEntry;
use sparkamp::engine::backend::MediaSource;
use sparkamp::ffi::disc::{
    gnudb_entry, gnudb_out, sparkamp_disc_audio_capacity_secs, sparkamp_disc_burn_cancel,
    sparkamp_disc_burn_job_poll, sparkamp_disc_burn_job_start, sparkamp_disc_default_meta,
    sparkamp_disc_erase_decision, sparkamp_disc_erase_job_start, sparkamp_disc_id,
    sparkamp_disc_merge_metadata, sparkamp_disc_probe_durations, sparkamp_disc_read_cdtext,
    sparkamp_disc_rip_format_name, sparkamp_disc_rip_has_quality, sparkamp_disc_rip_job_cancel,
    sparkamp_disc_rip_job_poll, sparkamp_disc_rip_job_start, sparkamp_disc_tags_get,
    sparkamp_disc_tags_set, sparkamp_disc_track_entries, sparkamp_gnudb_categories,
    sparkamp_gnudb_email_valid, sparkamp_gnudb_query, sparkamp_gnudb_read, sparkamp_gnudb_submit,
    sparkamp_gnudb_suggest_category, sparkamp_id3_genres, tray_is_open, BurnItemIn, BurnJobSlot,
    BurnMode, BurnRunIn, EraseDepth, RipFormat, RipJobDone, RipJobSlot, RipRun,
};
use sparkamp::json::{given_strings, read_strings};
use sparkamp::text::CText;

fn text(s: &str) -> CText {
    CText::Text(s.to_string())
}

fn toc() -> DiscToc {
    DiscToc {
        tracks: vec![
            TocTrack { number: 1, start_frame: 150, is_audio: true },
            TocTrack { number: 2, start_frame: 7650, is_audio: true },
        ],
        leadout_frame: 15150,
    }
}

fn drive(toc: Option<DiscToc>) -> OpticalDrive {
    OpticalDrive {
        supports_writing: true,
        id: "/dev/sr0".into(),
        label: "TEST".into(),
        media: MediaInfo { present: true, is_audio_cd: true, ..MediaInfo::none() },
        toc,
        mount_path: None,
    }
}

fn entry(artist: &str, album: &str, titles: &[&str]) -> XmcdEntry {
    XmcdEntry {
        discid: String::new(),
        artist: artist.to_string(),
        album: album.to_string(),
        year: String::new(),
        genre: String::new(),
        track_titles: titles.iter().map(|t| t.to_string()).collect(),
        revision: 0,
    }
}

#[test]
fn track_entries_round_trip() {
    let entries = sparkamp_disc_track_entries(Some(&drive(Some(toc()))));
    assert_eq!(entries.len(), 2);
    assert_eq!(entries[0].path, "cdda://1?device=/dev/sr0");
    assert_eq!(entries[0].title, "Track 1");
    assert_eq!(entries[0].duration_secs, 100);
    assert_eq!(
        MediaSource::parse(&entries[1].path),
        MediaSource::CdTrack { track: "2".to_string(), device: Some("/dev/sr0".to_string()) }
    );
}

#[test]
fn bad_drive_json_yields_empty_array() {
    assert!(sparkamp_disc_track_entries(None).is_empty());
    let mut data = drive(Some(toc()));
    data.media.is_audio_cd = false;
    assert!(sparkamp_disc_track_entries(Some(&data)).is_empty());
}

#[test]
fn a_disc_is_known_by_its_starts_its_length_and_its_tracks() {
    // Starts of 2 s and 102 s: digits 2 + 1 + 0 + 2; 200 s long; two tracks.
    assert_eq!(freedb_discid(&toc()), "0500c802");
    assert_eq!(sparkamp_disc_id(Some(&toc())), Some("0500c802".to_string()));
    assert_eq!(sparkamp_disc_id(None), None);
}

#[test]
fn category_and_genre_lists() {
    let cats = match read_strings(&sparkamp_gnudb_categories()) {
        Some(c) => c,
        None => panic!("a list of categories"),
    };
    assert_eq!(cats.len(), 11);
    assert!(cats.iter().any(|c| c == "rock"));

    let known: Vec<String> =
        ["Rock", "acid Jazz", "Blues", "a Cappella"].iter().map(|g| g.to_string()).collect();
    let genres = match read_strings(&sparkamp_id3_genres(&known)) {
        Some(g) => g,
        None => panic!("a list of genres"),
    };
    assert_eq!(genres.len(), known.len());
    let mut sorted = genres.clone();
    sorted.sort_unstable_by_key(|g| g.to_ascii_lowercase());
    assert_eq!(genres, sorted, "genres must arrive alphabetically");
    assert_eq!(genres[0], "a Cappella");
}

fn rip_job(titles: &[&str]) -> RipRun {
    RipRun {
        entries: titles
            .iter()
            .map(|t| sparkamp::disc::DiscTrackEntry {
                path: String::new(),
                title: t.to_string(),
                duration_secs: 1,
            })
            .collect(),
        dest_root: "/tmp".into(),
        quality: 1,
        tags: entry("", "", &[]),
        total_on_disc: 0,
    }
}

#[test]
fn rip_job_rejects_bad_json_and_double_start() {
    let mut slot = RipJobSlot::new();
    assert_eq!(sparkamp_disc_rip_job_start(&mut slot, None), -1);
    assert_eq!(sparkamp_disc_rip_job_start(&mut slot, Some(&rip_job(&["One", "Two"]))), 0);
    assert_eq!(sparkamp_disc_rip_job_start(&mut slot, Some(&rip_job(&[]))), -2);
    let status = sparkamp_disc_rip_job_poll(&slot);
    assert!(status.running);
    assert_eq!((status.track_count, status.title.as_str()), (2, "One"));
    slot.progress(1, 2, "Two", 500_000_000);
    assert_eq!(sparkamp_disc_rip_job_poll(&slot).title, "Two");
    sparkamp_disc_rip_job_cancel(&mut slot);
    assert!(slot.cancel);
    slot.finish(RipJobDone { ripped: Vec::new(), failures: Vec::new(), cancelled: true });
    assert!(!sparkamp_disc_rip_job_poll(&slot).running);
    assert_eq!(sparkamp_disc_rip_job_start(&mut slot, Some(&rip_job(&[]))), 0);
    assert!(!slot.cancel, "a new job is not asked to stop");
    assert!(slot.status.done.is_none());
}

fn burn_job(audio: bool, artist: Option<&str>, album: Option<&str>) -> BurnRunIn {
    BurnRunIn {
        drive: drive(None),
        items: vec![BurnItemIn { path: "/tmp/a.mp3".into(), display: "A".into() }],
        audio,
        use_m3u: true,
        erase_first: false,
        verify: true,
        disc_artist: artist.map(|s| s.to_string()),
        disc_album: album.map(|s| s.to_string()),
    }
}

#[test]
fn a_burn_is_titled_only_where_it_is_audio_and_both_are_given() {
    let titled = |audio: bool, artist: Option<&str>, album: Option<&str>| {
        let mut slot = BurnJobSlot::new();
        match sparkamp_disc_burn_job_start(&mut slot, Some(burn_job(audio, artist, album))) {
            (0, Some(plan)) => {
                assert_eq!(
                    plan.mode,
                    if audio { BurnMode::Audio } else { BurnMode::Data { use_m3u: true } }
                );
                assert_eq!(plan.items.len(), 1);
                plan.disc_meta.map(|m| (m.artist, m.album))
            }
            _ => panic!("the burn begins"),
        }
    };
    assert_eq!(
        titled(true, Some("A"), Some("B")),
        Some(("A".to_string(), "B".to_string()))
    );
    assert_eq!(titled(true, Some("A"), None), None);
    assert_eq!(titled(false, Some("A"), Some("B")), None);
}

#[test]
fn a_burn_never_stays_running_after_its_worker() {
    let mut slot = BurnJobSlot::new();
    assert_eq!(sparkamp_disc_burn_job_start(&mut slot, None).0, -1);
    assert_eq!(sparkamp_disc_burn_job_start(&mut slot, Some(burn_job(true, None, None))).0, 0);
    assert_eq!(slot.status.phase, "Starting…");
    assert_eq!(sparkamp_disc_erase_job_start(&mut slot, Some(&drive(None))), (-2, None));
    slot.progress("Burning…", Some(10));
    assert_eq!(sparkamp_disc_burn_job_poll(&slot).phase, "Burning…");
    slot.release();
    match &slot.status.done {
        Some(d) => assert_eq!((d.ok, d.message.as_str()), (false, "the job ended unexpectedly")),
        None => panic!("the job is over"),
    }
    assert_eq!(
        sparkamp_disc_erase_job_start(&mut slot, Some(&drive(None))),
        (0, Some(EraseDepth::Complete)),
        "the whole disc, not only what makes it look empty"
    );
    assert_eq!(slot.status.phase, "Erasing…");
    slot.finish_erase(Ok(()));
    slot.release();
    match &slot.status.done {
        Some(d) => assert_eq!((d.ok, d.message.as_str()), (true, "Disc erased.")),
        None => panic!("the job is over"),
    }
    assert_eq!(sparkamp_disc_erase_job_start(&mut slot, None), (-1, None));
    assert_eq!(sparkamp_disc_burn_job_start(&mut slot, Some(burn_job(true, None, None))).0, 0);
    sparkamp_disc_burn_cancel(&mut slot);
    assert!(slot.cancel);
    slot.finish(Err("no laser".to_string()));
    assert_eq!(slot.status.done.as_ref().map(|d| d.ok), Some(false));
}

#[test]
fn probe_durations_empty_and_missing_path() {
    let none = given_strings(&text("[]"));
    assert!(sparkamp_disc_probe_durations(&none, &Vec::new()).is_empty());
    assert!(given_strings(&text("not json")).is_empty());
    assert!(given_strings(&CText::Null).is_empty());

    let paths = given_strings(&text("[\"/no/such/file.mp3\"]"));
    let results = sparkamp_disc_probe_durations(&paths, &vec![None]);
    assert_eq!(results.len(), 1);
    assert_eq!(results[0].path, "/no/such/file.mp3");
    assert!(results[0].secs.is_none());
    let results = sparkamp_disc_probe_durations(&paths, &vec![Some(2_900_000_000)]);
    assert_eq!(results[0].secs, Some(2));
}

#[test]
fn read_cdtext_null_on_bad_drive_json() {
    assert!(sparkamp_disc_read_cdtext(None).is_none());
    assert!(sparkamp_disc_read_cdtext(Some(&drive(None))).is_none());
    assert_eq!(
        sparkamp_disc_read_cdtext(Some(&drive(Some(toc())))),
        Some(("/dev/sr0".to_string(), "0500c802".to_string()))
    );
}

#[test]
fn suggest_category_ffi_round_trip() {
    assert_eq!(sparkamp_gnudb_suggest_category(&text("Progressive Rock")), "rock");
    assert_eq!(sparkamp_gnudb_suggest_category(&CText::Null), "misc");
    assert_eq!(sparkamp_gnudb_suggest_category(&text("Chiptune")), "misc");
}

#[test]
fn what_is_in_the_drive_decides_what_a_burn_needs() {
    let with = |media: MediaInfo| {
        let mut d = drive(None);
        d.media = media;
        sparkamp_disc_erase_decision(Some(&d))
    };
    let present = MediaInfo { present: true, ..MediaInfo::none() };
    let blank = MediaInfo { is_blank: true, kind: MediaKind::CdR, ..present };
    assert_eq!(with(blank), 0);
    let used = MediaInfo {
        rewritable: true,
        kind: MediaKind::CdRw,
        free_bytes: 700000000,
        capacity_bytes: 700000000,
        ..present
    };
    assert_eq!(with(used), 1);
    assert_eq!((present.kind, present.free_bytes), (MediaKind::Unknown, 0));
    assert_eq!(with(present), 2);
    assert_eq!(with(MediaInfo::none()), 2);
    assert_eq!(sparkamp_disc_erase_decision(None), 2);
    assert_eq!(sparkamp_disc_audio_capacity_secs(Some(&drive(None)), Some(750)), 10);
    assert_eq!(sparkamp_disc_audio_capacity_secs(Some(&drive(None)), None), 4800);
    assert_eq!(sparkamp_disc_audio_capacity_secs(None, Some(750)), 4800);
}

#[test]
fn an_address_needs_its_parts_and_must_not_be_the_old_default() {
    let valid = |e: &str| sparkamp_gnudb_email_valid(&text(e), "old@app.example");
    assert!(valid("me@home.example"));
    assert!(!valid("old@app.example"));
    assert!(!valid("me@home"));
    assert!(!valid("@home.example"));
    assert!(!valid("me@.x"));
    assert!(!valid("me@home."));
    assert!(!valid("  "));
    assert!(!sparkamp_gnudb_email_valid(&CText::Null, ""));
}

#[test]
fn a_submission_is_checked_in_order() {
    let t = toc();
    let e = entry("A", "B", &["x"]);
    let submit = |entry: Option<&XmcdEntry>, email: &str, lacking: Option<String>| {
        sparkamp_gnudb_submit(Some(&t), entry, &text("rock"), &text(email), true, "old@app.example", lacking)
            .map(|q| (q.category, q.discid))
    };
    assert_eq!(submit(None, "", None), Err("bad arguments".to_string()));
    assert_eq!(
        submit(Some(&e), "old@app.example", Some("no titles".to_string())),
        Err("Set your email before submitting (gnudb requires a personal address)".to_string())
    );
    assert_eq!(
        submit(Some(&e), "me@home.example", Some("no titles".to_string())),
        Err("no titles".to_string())
    );
    assert_eq!(
        submit(Some(&e), "me@home.example", None),
        Ok(("rock".to_string(), "0500c802".to_string()))
    );
    assert!(sparkamp_gnudb_query(Some(&t), &CText::Null).is_err());
    match sparkamp_gnudb_query(Some(&t), &text("me@home.example")) {
        Ok(q) => {
            assert_eq!(q.discid, "0500c802");
            assert_eq!(q.toc.tracks, t.tracks);
            assert_eq!(q.toc.leadout_frame, t.leadout_frame);
        }
        Err(why) => panic!("{why}"),
    }
    assert!(sparkamp_gnudb_read(&text("rock"), &CText::Invalid, &text("e")).is_err());
    assert!(gnudb_entry(Ok(()), None).is_err());
    assert!(gnudb_entry(Ok(()), Some(entry("", "", &[]))).is_ok());
    assert!(gnudb_entry(Err("offline".to_string()), None).is_err());
}

#[test]
fn the_first_description_wins_and_the_second_fills_its_gaps() {
    let a = entry("Band", "", &["One", ""]);
    let b = entry("Other", "Album", &["x", "Two", "Three"]);
    match sparkamp_disc_merge_metadata(Some(a), Some(b)) {
        Some(m) => {
            assert_eq!((m.artist.as_str(), m.album.as_str()), ("Band", "Album"));
            assert_eq!(m.track_titles, vec!["One", "Two", "Three"]);
        }
        None => panic!("both are there"),
    }
    assert!(sparkamp_disc_merge_metadata(None, None).is_none());
    assert_eq!(
        sparkamp_disc_merge_metadata(None, Some(entry("X", "", &[]))).map(|m| m.artist),
        Some("X".to_string())
    );
}

#[test]
fn a_disc_is_called_after_the_artist_that_every_line_names() {
    let lines = |l: &[&str]| l.iter().map(|s| s.to_string()).collect::<Vec<String>>();
    let meta = sparkamp_disc_default_meta(Some(&lines(&["A - x", "A - y"])), "2026-01-02");
    assert_eq!((meta.artist.as_str(), meta.album.as_str()), ("A", "Sparkamp Disc 2026-01-02"));
    let meta = sparkamp_disc_default_meta(Some(&lines(&["A - x", "B - y"])), "2026-01-02");
    assert_eq!(meta.artist, "Various Artists");
    let meta = sparkamp_disc_default_meta(Some(&lines(&["A - x", "untitled"])), "2026-01-02");
    assert_eq!(meta.artist, "Various Artists");
    assert_eq!(sparkamp_disc_default_meta(None, "d").artist, "Various Artists");
}

#[test]
fn a_disc_record_is_kept_and_given_back() {
    let kept = match sparkamp_disc_tags_set(&text("0500c802"), Some(entry("A", "", &[])), None) {
        Some((id, rec)) => {
            assert_eq!(id, "0500c802");
            rec
        }
        None => panic!("both are given"),
    };
    let (user, official) = sparkamp_disc_tags_get(&text("0500c802"), Some(kept));
    assert_eq!(user.map(|u| u.artist), Some("A".to_string()));
    assert!(official.is_none());
    assert!(sparkamp_disc_tags_set(&CText::Null, Some(entry("A", "", &[])), None).is_none());
    assert!(sparkamp_disc_tags_set(&text("x"), None, None).is_none());
}

#[test]
fn a_format_that_loses_nothing_takes_no_quality() {
    assert_eq!(sparkamp_disc_rip_format_name(RipFormat::Flac), "FLAC");
    assert!(!sparkamp_disc_rip_has_quality(RipFormat::Flac));
    assert_eq!(sparkamp_disc_rip_format_name(RipFormat::Mp3), "MP3");
    assert!(sparkamp_disc_rip_has_quality(RipFormat::Mp3));
    assert!(tray_is_open(Some(true)));
    assert!(!tray_is_open(None));
}

#[test]
fn a_call_to_the_database_has_a_result_or_an_error() {
    let good = gnudb_out::<u8>(Ok(1));
    assert!(good.ok == Some(1) && good.error.is_none());
    let bad = gnudb_out::<u8>(Err("offline".to_string()));
    assert!(bad.ok.is_none() && bad.error.as_deref() == Some("offline"));
}
