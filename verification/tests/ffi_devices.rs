use sparkamp::ffi::devices::{
    conflict_file, ext_for_format, file_names, files_to_delete, first_picture, join, marker_work,
    apply_step, copy_step, sparkamp_device_browse, sparkamp_device_conflict_artwork, sparkamp_device_copy,
    sparkamp_device_delete_files, sparkamp_device_fs_unsupported, sparkamp_device_playlist_apply,
    sparkamp_device_playlist_new, sparkamp_device_playlist_remove_entries,
    sparkamp_device_playlist_rename, sparkamp_device_playlists,
    sparkamp_devices_refresh, ApplyAction, ApplyEvent, CopyAction, CopyEvent, CopyOutcome, CopyResult, Device, DeviceBackend, FoundFile, FoundPlaylist,
    MarkerWork, PlaylistApplyResult, PlaylistSyncDir, SyncPair, VolumeIn,
};
use sparkamp::media_library::LibTrack;
use sparkamp::text::CText;

fn text(s: &str) -> CText {
    CText::Text(s.to_string())
}

fn volume(uuid: Option<&str>, read_only: bool) -> VolumeIn {
    VolumeIn {
        mount_path: "/mnt/stick".into(),
        label: "Stick".into(),
        fs_type: "exfat".into(),
        bsd_name: "disk9s1".into(),
        total_bytes: 100,
        free_bytes: 40,
        read_only,
        ejectable: true,
        volume_uuid: uuid.map(|s| s.to_string()),
    }
}

fn device() -> Device {
    Device::from_volume(&volume(Some("U"), false), &None)
}

#[test]
fn devices_refresh_round_trips_a_volume() {
    let vols = vec![volume(Some("UUID-9"), false)];
    let devs = sparkamp_devices_refresh(Some(&vols), &vec![None]);
    assert_eq!(devs.len(), 1);
    assert_eq!(devs[0].id, "UUID-9");
    assert_eq!(devs[0].backend_id, "disk9s1");
    assert_eq!(devs[0].backend, DeviceBackend::Udisks);
    assert!(devs[0].fs_visible);
    assert!(sparkamp_devices_refresh(None, &Vec::new()).is_empty());
}

#[test]
fn a_volume_without_an_id_is_known_by_its_marker() {
    assert_eq!(marker_work(&volume(Some("U"), false)), MarkerWork::Leave);
    assert_eq!(marker_work(&volume(Some(""), false)), MarkerWork::Ensure);
    assert_eq!(marker_work(&volume(None, true)), MarkerWork::Read);
    let vols = vec![volume(None, false), volume(None, true)];
    let devs = sparkamp_devices_refresh(Some(&vols), &vec![Some("M".to_string()), None]);
    assert_eq!((devs[0].id.as_str(), devs[1].id.as_str()), ("M", ""));
}

#[test]
fn fs_unsupported_matches_core() {
    assert!(sparkamp_device_fs_unsupported(&text("ntfs")));
    assert!(!sparkamp_device_fs_unsupported(&text("vfat")));
    assert!(sparkamp_device_fs_unsupported(&text("exfat")));
    assert!(!sparkamp_device_fs_unsupported(&CText::Null));
}

#[test]
fn delete_files_bad_input_returns_negative_one() {
    assert_eq!(sparkamp_device_delete_files(None, 0), -1);
    assert_eq!(files_to_delete(None, &CText::Null), None);
    let d = device();
    assert_eq!(
        files_to_delete(Some(&d), &text("[\"/mnt/stick/a.mp3\"]")),
        Some(vec!["/mnt/stick/a.mp3".to_string()])
    );
    assert_eq!(sparkamp_device_delete_files(Some(&d), 2), 2);
}

fn pair(rel: &str, from: &str) -> SyncPair {
    SyncPair { device_relpath: rel.to_string(), library_path: from.to_string() }
}

#[test]
fn a_file_names_the_one_it_was_synced_from() {
    let pairs = vec![pair("Music\\a.mp3", "/first"), pair("Music/a.mp3", "/last")];
    let mut t = LibTrack::default();
    t.path = "/mnt/stick/Music/a.mp3".to_string();
    t.filename = "a.mp3".to_string();
    let files = vec![FoundFile { track: t, relpath: Some("Music/a.mp3".to_string()) }];
    let d = device();
    match sparkamp_device_browse(Some(&d), &pairs, &files) {
        Some(rows) => {
            assert_eq!(rows[0].title, "a.mp3");
            assert_eq!(rows[0].synced_from, Some("/last".to_string()));
        }
        None => panic!("the device is there"),
    }
    assert!(sparkamp_device_browse(None, &pairs, &files).is_none());
    assert_eq!(
        conflict_file(Some(&d), &text("Music/a.mp3"), 0, &pairs),
        Some("/first".to_string())
    );
    assert_eq!(
        conflict_file(Some(&d), &text("Music/a.mp3"), 1, &pairs),
        Some("/mnt/stick/Music/a.mp3".to_string())
    );
    assert_eq!(conflict_file(Some(&d), &text("b.mp3"), 0, &pairs), None);
}

#[test]
fn a_copy_counts_every_file_once() {
    let outcomes = vec![
        CopyOutcome::Copied(10),
        CopyOutcome::Missing,
        CopyOutcome::Present,
        CopyOutcome::Failed,
        CopyOutcome::Copied(5),
    ];
    let r = sparkamp_device_copy(&outcomes);
    assert_eq!((r.copied, r.skipped, r.bytes), (2, 3, 15));
}

#[test]
fn a_copy_records_each_pair_as_it_is_made() {
    let none = CopyResult { copied: 0, skipped: 0, bytes: 0 };
    let looked = |exists: bool, present: bool| copy_step(none, CopyEvent::Looked { exists, present });
    let passed = CopyResult { skipped: 1, ..none };
    assert_eq!(looked(false, false), (passed, CopyAction::Next));
    assert_eq!(looked(false, true), (passed, CopyAction::Next));
    assert_eq!(looked(true, true), (passed, CopyAction::Record));
    assert_eq!(looked(true, false), (none, CopyAction::Copy));
    assert_eq!(
        copy_step(passed, CopyEvent::Copied(7)),
        (CopyResult { copied: 1, skipped: 1, bytes: 7 }, CopyAction::Record)
    );
    assert_eq!(copy_step(none, CopyEvent::Failed), (passed, CopyAction::Next));
}

#[test]
fn a_playlist_goes_the_way_that_was_planned() {
    let none = PlaylistApplyResult { pushed: 0, pulled: 0, skipped: 0 };
    let passed = PlaylistApplyResult { skipped: 1, ..none };
    let planned = |dir: PlaylistSyncDir| apply_step(none, ApplyEvent::Planned(dir));
    assert_eq!(planned(PlaylistSyncDir::Push), (none, ApplyAction::Push));
    assert_eq!(planned(PlaylistSyncDir::Pull), (none, ApplyAction::Pull));
    assert_eq!(planned(PlaylistSyncDir::Nothing), (passed, ApplyAction::Next));
    assert_eq!(planned(PlaylistSyncDir::Conflict), (passed, ApplyAction::Next));
    let pushed = PlaylistApplyResult { pushed: 1, ..none };
    let pulled = PlaylistApplyResult { pulled: 1, ..none };
    assert_eq!(apply_step(none, ApplyEvent::Pushed(true)), (pushed, ApplyAction::Next));
    assert_eq!(apply_step(none, ApplyEvent::Pulled(true)), (pulled, ApplyAction::Next));
    assert_eq!(apply_step(none, ApplyEvent::Pushed(false)), (passed, ApplyAction::Next));
    assert_eq!(apply_step(none, ApplyEvent::Pulled(false)), (passed, ApplyAction::Next));
}

#[test]
fn a_playlist_sync_counts_every_playlist_once() {
    let items = vec![
        (PlaylistSyncDir::Push, true),
        (PlaylistSyncDir::Push, false),
        (PlaylistSyncDir::Pull, true),
        (PlaylistSyncDir::Nothing, true),
        (PlaylistSyncDir::Conflict, true),
    ];
    let r = sparkamp_device_playlist_apply(&items);
    assert_eq!((r.pushed, r.pulled, r.skipped), (1, 1, 3));
}

#[test]
fn device_playlists_are_listed_below_the_mount() {
    let d = device();
    let found = vec![
        FoundPlaylist {
            relpath: Some("Lists\\a.m3u".to_string()),
            name: Some("a.m3u".to_string()),
            entries: vec!["x.mp3".to_string()],
        },
        FoundPlaylist { relpath: None, name: Some("b.m3u".to_string()), entries: Vec::new() },
    ];
    match sparkamp_device_playlists(Some(&d), &found) {
        Some(lists) => {
            assert_eq!(lists.len(), 1);
            assert_eq!(lists[0].relpath, "Lists/a.m3u");
            assert_eq!(lists[0].entries, vec!["x.mp3"]);
        }
        None => panic!("the device is there"),
    }
}

#[test]
fn a_renamed_playlist_takes_its_library_copy_along() {
    let d = device();
    assert_eq!(
        sparkamp_device_playlist_rename(Some(&d), &text("a.m3u"), &text(" New "), true, Some(4)),
        (true, Some((4, "New".to_string())))
    );
    assert_eq!(
        sparkamp_device_playlist_rename(Some(&d), &text("a.m3u"), &text("New"), false, Some(4)),
        (false, None)
    );
    let made = sparkamp_device_playlist_new(Some(&d), &text("x"), Some("x.m3u8".to_string()));
    assert!(made.ok && made.relpath == "x.m3u8");
    assert!(!sparkamp_device_playlist_new(None, &text("x"), None).ok);
    assert_eq!((ext_for_format(1), ext_for_format(0)), ("m3u", "m3u8"));
}

#[test]
fn artwork_is_the_first_picture() {
    let pictures = vec![vec![1u8, 2], vec![3u8]];
    assert_eq!(first_picture(Some(&pictures)), Some(vec![1, 2]));
    assert_eq!(first_picture(None), None);
    assert_eq!(sparkamp_device_conflict_artwork(Some("/a"), Some(&pictures)), Some(vec![1, 2]));
    assert_eq!(sparkamp_device_conflict_artwork(None, Some(&pictures)), None);
    assert_eq!(sparkamp_device_conflict_artwork(Some("/a"), Some(&vec![Vec::new()])), None);
}

#[test]
fn a_path_joins_with_one_slash() {
    assert_eq!(join("/mnt", "a"), "/mnt/a");
    assert_eq!(join("/mnt/", "a"), "/mnt/a");
    assert_eq!(join("/mnt", "/a"), "/a");
    assert_eq!(join("", "a"), "a");
}

#[test]
fn entries_go_by_the_names_of_their_files() {
    let paths: Vec<String> = ["/m/a.mp3", "/n/a.mp3", "/m/b.mp3/", "/m/c/.", "/m/..", "/"]
        .iter()
        .map(|p| p.to_string())
        .collect();
    assert_eq!(file_names(&paths), vec!["a.mp3", "b.mp3", "c"]);
    let d = device();
    let gone = sparkamp_device_playlist_remove_entries(
        Some(&d),
        &text("list.m3u"),
        &text("[\"/m/a.mp3\",\"/n/a.mp3\"]"),
    );
    match gone {
        Some(g) => {
            assert_eq!(g.playlist, "/mnt/stick/list.m3u");
            assert_eq!(g.names, vec!["a.mp3"]);
        }
        None => panic!("the device is there"),
    }
    assert!(sparkamp_device_playlist_remove_entries(None, &text("l"), &CText::Null).is_none());
}
