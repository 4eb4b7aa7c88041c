//! What the media library keeps of a file and of an album.

use crate::model;
use crate::model::Track;
use crate::text::same;
use vstd::prelude::*;

verus! {

/// One file of the library, with what was read of it.
pub struct LibTrack {
    pub id: i64,
    pub path: String,
    pub filename: String,
    pub title: Option<String>,
    pub artist: Option<String>,
    pub album: Option<String>,
    pub album_artist: Option<String>,
    pub genre: Option<String>,
    pub composer: Option<String>,
    pub comment: Option<String>,
    pub bpm: Option<String>,
    pub year: Option<i64>,
    pub track_num: Option<i64>,
    pub disc_num: Option<i64>,
    /// In nanoseconds.
    pub length: Option<u64>,
    pub bitrate: Option<i64>,
    pub bitrate_mode: Option<String>,
    pub sample_rate: Option<i64>,
    pub channels: Option<i64>,
    pub file_size: Option<i64>,
    pub play_count: i64,
    pub last_played: Option<String>,
    pub last_scanned: Option<String>,
    pub added_at: Option<String>,
    pub file_mtime: Option<String>,
    pub artwork_path: Option<String>,
    /// Gains in millionths of a decibel, peaks in parts per billion.
    pub rg_track_gain: Option<i64>,
    pub rg_track_peak: Option<i64>,
    pub rg_album_gain: Option<i64>,
    pub rg_album_peak: Option<i64>,
}

impl Default for LibTrack {
    fn default() -> (r: LibTrack)
        ensures
            r.id == 0,
            r.path@ == Seq::<char>::empty(),
            r.filename@ == Seq::<char>::empty(),
            r.title is None,
            r.artist is None,
            r.album is None,
            r.album_artist is None,
            r.genre is None,
            r.composer is None,
            r.comment is None,
            r.bpm is None,
            r.year is None,
            r.track_num is None,
            r.disc_num is None,
            r.length is None,
            r.bitrate is None,
            r.bitrate_mode is None,
            r.sample_rate is None,
            r.channels is None,
            r.file_size is None,
            r.play_count == 0,
            r.last_played is None,
            r.last_scanned is None,
            r.added_at is None,
            r.file_mtime is None,
            r.artwork_path is None,
            r.rg_track_gain is None,
            r.rg_track_peak is None,
            r.rg_album_gain is None,
            r.rg_album_peak is None,
    {
        let r = LibTrack {
            id: 0,
            path: String::new(),
            filename: String::new(),
            title: None,
            artist: None,
            album: None,
            album_artist: None,
            genre: None,
            composer: None,
            comment: None,
            bpm: None,
            year: None,
            track_num: None,
            disc_num: None,
            length: None,
            bitrate: None,
            bitrate_mode: None,
            sample_rate: None,
            channels: None,
            file_size: None,
            play_count: 0,
            last_played: None,
            last_scanned: None,
            added_at: None,
            file_mtime: None,
            artwork_path: None,
            rg_track_gain: None,
            rg_track_peak: None,
            rg_album_gain: None,
            rg_album_peak: None,
        };
        assert(r.path@ =~= Seq::<char>::empty());
        assert(r.filename@ =~= Seq::<char>::empty());
        r
    }
}

/// One album, or the bucket of every file without one.
pub struct AlbumGroup {
    pub album: String,
    pub album_artist: String,
    pub year: Option<i64>,
    pub track_count: i64,
    pub artwork_path: Option<String>,
    pub is_no_album: bool,
}

/// What albums are sorted by.
#[derive(Debug, Clone, Copy, PartialEq, Eq, Structural)]
pub enum AlbumSort {
    Artist,
    Album,
    Year,
}

/// A text that may be absent, empty where it is.
pub open spec fn text_of(s: Option<String>) -> Seq<char> {
    match s {
        Some(t) => t@,
        None => Seq::empty(),
    }
}

/// A text that may be absent, empty where it is.
pub fn owned_text(s: &Option<String>) -> (r: String)
    ensures
        r@ == text_of(*s),
{
    match s {
        Some(t) => t.clone(),
        None => {
            let none = String::new();
            assert(none@ =~= Seq::empty());
            none
        },
    }
}

impl LibTrack {
    /// The title shown: the file's name where it has none.
    pub open spec fn shown_title(&self) -> Seq<char> {
        match self.title {
            Some(t) => t@,
            None => self.filename@,
        }
    }

    /// The title shown.
    pub fn title_shown(&self) -> (r: String)
        ensures
            r@ == self.shown_title(),
    {
        match &self.title {
            Some(t) => t.clone(),
            None => self.filename.clone(),
        }
    }

    /// The playlist entry that stands for this file. What the library knows
    /// comes with it.
    pub open spec fn as_row(&self) -> model::TrackView {
        model::TrackView {
            path: self.path@,
            title: self.shown_title(),
            artist: text_of(self.artist),
            album_artist: text_of(self.album_artist),
            album: text_of(self.album),
            duration: self.length,
            broken: false,
            read_only: false,
            id: 0,
        }
    }

    /// The playlist entry that stands for this file.
    pub fn to_track(&self) -> (r: Track)
        ensures
            r@ == self.as_row(),
    {
        Track {
            path: self.path.clone(),
            title: self.title_shown(),
            artist: owned_text(&self.artist),
            album_artist: owned_text(&self.album_artist),
            album: owned_text(&self.album),
            duration: self.length,
            broken: false,
            read_only: false,
            id: 0,
        }
    }
}

/// A bitrate mode in words; older entries hold abbreviations.
pub open spec fn mode_in_words(mode: Seq<char>) -> Seq<char> {
    if mode == "VBR"@ {
        "Variable"@
    } else if mode == "CBR"@ {
        "Constant"@
    } else {
        mode
    }
}

/// A bitrate mode in words.
pub fn normalize_bitrate_mode(mode: &str) -> (r: String)
    ensures
        r@ == mode_in_words(mode@),
{
    if same(mode, "VBR") {
        "Variable".to_owned()
    } else if same(mode, "CBR") {
        "Constant".to_owned()
    } else {
        mode.to_owned()
    }
}

/// A library track comes into a playlist with all that is known of it: its own path, title,
/// artist, album artist, album and length; the file's name where it has no title, and
/// nothing where the rest is not known. It is neither broken nor read-only.
pub proof fn law_a_row_holds_what_the_library_knows(t: &LibTrack)
    ensures
        t.as_row().path == t.path@,
        t.title matches Some(s) ==> t.as_row().title == s@,
        t.title is None ==> t.as_row().title == t.filename@,
        t.artist matches Some(s) ==> t.as_row().artist == s@,
        t.artist is None ==> t.as_row().artist.len() == 0,
        t.album_artist matches Some(s) ==> t.as_row().album_artist == s@,
        t.album_artist is None ==> t.as_row().album_artist.len() == 0,
        t.album matches Some(s) ==> t.as_row().album == s@,
        t.album is None ==> t.as_row().album.len() == 0,
        t.as_row().duration == t.length,
        !t.as_row().broken,
        !t.as_row().read_only,
        t.as_row().id == 0,
{
}

/// The two abbreviations of a bitrate mode are written out, and anything else stays.
pub proof fn law_bitrate_modes_are_written_out(mode: Seq<char>)
    ensures
        mode == seq!['V', 'B', 'R'] ==> mode_in_words(mode) == "Variable"@,
        mode == seq!['C', 'B', 'R'] ==> mode_in_words(mode) == "Constant"@,
        mode != seq!['V', 'B', 'R'] && mode != seq!['C', 'B', 'R'] ==> mode_in_words(mode) == mode,
{
    reveal_strlit("VBR");
    reveal_strlit("CBR");
    assert("VBR"@ =~= seq!['V', 'B', 'R']);
    assert("CBR"@ =~= seq!['C', 'B', 'R']);
    assert("VBR"@[0] != "CBR"@[0]);
}

} // verus!
