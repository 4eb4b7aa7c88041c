use sparkamp::file_status::{check_row, wants_tags, OnDisk, RowCheck};
use sparkamp::model::Track;

fn row(path: &str) -> RowCheck {
    RowCheck { id: 1, path: path.to_string(), needs_tags: true }
}

fn gone() -> OnDisk {
    OnDisk { exists: false, read_only: false }
}

fn there() -> OnDisk {
    OnDisk { exists: true, read_only: false }
}

fn read() -> Track {
    Track {
        path: "/a.mp3".to_string(),
        title: "A".to_string(),
        artist: String::new(),
        album_artist: String::new(),
        album: String::new(),
        duration: None,
        broken: false,
        read_only: false,
        id: 0,
    }
}

#[test]
fn a_disc_track_is_present_and_read_only_without_being_stated() {
    let facts = check_row(&row("cdda://1?device=/dev/sr0"), gone(), Some(read()), None);
    assert!(facts.exists, "a disc track is present by definition");
    assert!(facts.read_only, "optical media is never writable in place");
    assert!(facts.tags.is_none(), "a pseudo-URI cannot be opened, so it must not be attempted");
}

#[test]
fn a_missing_file_is_still_reported_missing() {
    let facts = check_row(&row("/nonexistent/definitely-not-here.mp3"), gone(), None, None);
    assert!(!facts.exists);
    assert!(!facts.read_only);
}

#[test]
fn reports_a_missing_file_as_absent_and_not_read_only() {
    let check = RowCheck { id: 1, path: "/no/such/file.mp3".to_string(), needs_tags: false };
    let got = check_row(&check, OnDisk { exists: false, read_only: true }, None, None);
    assert_eq!(got.path, "/no/such/file.mp3");
    assert!(!got.exists);
    assert!(!got.read_only, "a file that is not there is not read-only");
}

#[test]
fn reports_an_existing_file_as_present() {
    let check = RowCheck { id: 1, path: "/dev/null".to_string(), needs_tags: false };
    assert!(check_row(&check, there(), None, None).exists, "/dev/null exists");
}

#[test]
fn does_not_read_tags_when_the_library_already_has_them() {
    let check = RowCheck { id: 1, path: "/dev/null".to_string(), needs_tags: false };
    assert!(!wants_tags(&check, there()));
    assert!(check_row(&check, there(), Some(read()), Some(5)).tags.is_none());
}

#[test]
fn does_not_read_tags_for_a_file_that_is_not_there() {
    let check = row("/no/such/file.mp3");
    assert!(!wants_tags(&check, gone()));
    assert!(check_row(&check, gone(), Some(read()), Some(5)).tags.is_none());
}

#[test]
fn an_unknown_file_is_read_with_its_length() {
    let check = row("/a.mp3");
    assert!(wants_tags(&check, there()));
    let facts = check_row(&check, there(), Some(read()), Some(5));
    match facts.tags {
        Some(t) => assert_eq!((t.title.as_str(), t.duration), ("A", Some(5))),
        None => panic!("the file was read"),
    }
    assert_eq!(facts.id, 1);
}
