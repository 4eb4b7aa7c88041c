//! The media library.

use crate::buffer;
use crate::buffer::to_buffer;
use crate::engine::backend::AudioBackend;
use crate::ffi::playback;
use crate::ffi::playback::row_at;
use crate::ffi::queue;
use crate::ffi::queue::sync_queue_to_playlist;
use crate::ffi::{DurationResult, MetaResult, SparkampCtx};
use crate::media_library;
use crate::media_library::{
    normalize_bitrate_mode, owned_text, AlbumGroup, AlbumSort, LibTrack,
};
use crate::model;
use crate::model::Track;
use crate::text;
use crate::text::{c_or_empty, fits_c, readable_texts, same, CText};
use vstd::prelude::*;

verus! {

/// One file of the library as it crosses to C.
pub struct SparkampLibTrack {
    pub id: i64,
    pub path: [u8; 512],
    pub title: [u8; 256],
    pub artist: [u8; 256],
    pub album: [u8; 256],
    pub genre: [u8; 64],
    pub year: i32,
    pub track_num: i32,
    /// In nanoseconds, zero if unknown.
    pub length: i64,
    pub bitrate: i32,
    pub play_count: i32,
    /// One once the file was read, zero while only its name is known.
    pub scanned: i32,
    pub album_artist: [u8; 256],
    pub disc_num: i32,
    pub bpm: [u8; 32],
    pub comment: [u8; 512],
    pub composer: [u8; 256],
    /// One where the file is read-only.
    pub read_only: i32,
    /// One where artwork is kept.
    pub has_art: i32,
    pub artwork_path: [u8; 512],
    /// One where the file is gone.
    pub file_missing: i32,
    pub last_played: [u8; 32],
    pub sample_rate: i32,
    pub file_size: i64,
    pub added_at: [u8; 32],
    pub file_mtime: [u8; 32],
    /// Wide enough for the longest word and its zero.
    pub bitrate_mode: [u8; 16],
    pub channels: i32,
    /// Gains in millionths of a decibel, peaks in parts per billion.
    pub rg_track_gain: i64,
    pub rg_track_peak: i64,
    pub rg_album_gain: i64,
    pub rg_album_peak: i64,
    /// One where a gain was computed; the gains and peaks are zero otherwise.
    pub rg_analyzed: i32,
}

/// What the file system says of a file.
#[derive(Debug, Clone, Copy, PartialEq, Eq, Structural)]
pub struct FileFacts {
    pub read_only: bool,
    pub missing: bool,
}

/// A number that may be absent, zero where it is.
pub open spec fn number(n: Option<i64>) -> i64 {
    match n {
        Some(v) => v,
        None => 0,
    }
}

pub fn or_zero(n: Option<i64>) -> (r: i64)
    ensures
        r == number(n),
{
    match n {
        Some(v) => v,
        None => 0,
    }
}

/// A number cut to the width that crosses.
fn narrow(n: i64) -> (r: i32)
    ensures
        r == n as i32,
{
    #[verifier::truncate]
    (n as i32)
}

/// A length as it crosses: zero where it is not known, and the greatest number
/// that fits where it is longer.
pub open spec fn length_out(length: Option<u64>) -> i64 {
    match length {
        Some(ns) => if ns <= i64::MAX {
            ns as i64
        } else {
            i64::MAX
        },
        None => 0,
    }
}

fn length_crossing(length: Option<u64>) -> (r: i64)
    ensures
        r == length_out(length),
{
    match length {
        Some(ns) => if ns <= i64::MAX as u64 {
            ns as i64
        } else {
            i64::MAX
        },
        None => 0,
    }
}

fn flag(b: bool) -> (r: i32)
    ensures
        r == (if b {
            1int
        } else {
            0int
        }),
{
    if b {
        1
    } else {
        0
    }
}

/// One where it holds.
pub open spec fn one_if(b: bool) -> int {
    if b {
        1
    } else {
        0
    }
}

/// The words a bitrate mode crosses as.
pub open spec fn mode_out(mode: Option<String>) -> Seq<char> {
    match mode {
        Some(m) => media_library::mode_in_words(m@),
        None => Seq::empty(),
    }
}

/// A gain or a peak as it crosses: zero while the file was not analyzed.
pub open spec fn loudness_out(t: &LibTrack, v: Option<i64>) -> i64 {
    if t.rg_track_gain is Some {
        number(v)
    } else {
        0
    }
}

fn loudness(t: &LibTrack, v: Option<i64>) -> (r: i64)
    ensures
        r == loudness_out(t, v),
{
    if t.rg_track_gain.is_some() {
        or_zero(v)
    } else {
        0
    }
}

impl SparkampLibTrack {
    /// What crosses of a file.
    pub open spec fn stands_for(&self, t: &LibTrack, facts: FileFacts) -> bool {
        &&& self.id == t.id
        &&& self.path@ == buffer::closed_text(t.path@, 512)
        &&& self.title@ == buffer::closed_text(t.shown_title(), 256)
        &&& self.artist@ == buffer::closed_text(media_library::text_of(t.artist), 256)
        &&& self.album@ == buffer::closed_text(media_library::text_of(t.album), 256)
        &&& self.genre@ == buffer::closed_text(media_library::text_of(t.genre), 64)
        &&& self.year == number(t.year) as i32
        &&& self.track_num == number(t.track_num) as i32
        &&& self.length == length_out(t.length)
        &&& self.bitrate == number(t.bitrate) as i32
        &&& self.play_count == t.play_count as i32
        &&& self.scanned == one_if(t.last_scanned is Some)
        &&& self.album_artist@ == buffer::closed_text(media_library::text_of(t.album_artist), 256)
        &&& self.disc_num == number(t.disc_num) as i32
        &&& self.bpm@ == buffer::closed_text(media_library::text_of(t.bpm), 32)
        &&& self.comment@ == buffer::closed_text(media_library::text_of(t.comment), 512)
        &&& self.composer@ == buffer::closed_text(media_library::text_of(t.composer), 256)
        &&& self.read_only == one_if(facts.read_only)
        &&& self.has_art == one_if(t.artwork_path is Some)
        &&& self.artwork_path@ == buffer::closed_text(media_library::text_of(t.artwork_path), 512)
        &&& self.file_missing == one_if(facts.missing)
        &&& self.last_played@ == buffer::closed_text(media_library::text_of(t.last_played), 32)
        &&& self.sample_rate == number(t.sample_rate) as i32
        &&& self.file_size == number(t.file_size)
        &&& self.added_at@ == buffer::closed_text(media_library::text_of(t.added_at), 32)
        &&& self.file_mtime@ == buffer::closed_text(media_library::text_of(t.file_mtime), 32)
        &&& self.bitrate_mode@ == buffer::closed_text(mode_out(t.bitrate_mode), 16)
        &&& self.channels == number(t.channels) as i32
        &&& self.rg_track_gain == loudness_out(t, t.rg_track_gain)
        &&& self.rg_track_peak == loudness_out(t, t.rg_track_peak)
        &&& self.rg_album_gain == loudness_out(t, t.rg_album_gain)
        &&& self.rg_album_peak == loudness_out(t, t.rg_album_peak)
        &&& self.rg_analyzed == one_if(t.rg_track_gain is Some)
    }

    /// What crosses of a file.
    pub fn from_lib_track(t: &LibTrack, facts: FileFacts) -> (r: SparkampLibTrack)
        ensures
            r.stands_for(t, facts),
    {
        let title = t.title_shown();
        let artist = owned_text(&t.artist);
        let album = owned_text(&t.album);
        let genre = owned_text(&t.genre);
        let album_artist = owned_text(&t.album_artist);
        let bpm = owned_text(&t.bpm);
        let comment = owned_text(&t.comment);
        let composer = owned_text(&t.composer);
        let artwork_path = owned_text(&t.artwork_path);
        let last_played = owned_text(&t.last_played);
        let added_at = owned_text(&t.added_at);
        let file_mtime = owned_text(&t.file_mtime);
        let bitrate_mode = match &t.bitrate_mode {
            Some(m) => normalize_bitrate_mode(m.as_str()),
            None => String::new(),
        };
        assert(bitrate_mode@ =~= mode_out(t.bitrate_mode));
        SparkampLibTrack {
            id: t.id,
            path: to_buffer::<512>(t.path.as_str()),
            title: to_buffer::<256>(title.as_str()),
            artist: to_buffer::<256>(artist.as_str()),
            album: to_buffer::<256>(album.as_str()),
            genre: to_buffer::<64>(genre.as_str()),
            year: narrow(or_zero(t.year)),
            track_num: narrow(or_zero(t.track_num)),
            length: length_crossing(t.length),
            bitrate: narrow(or_zero(t.bitrate)),
            play_count: narrow(t.play_count),
            scanned: flag(t.last_scanned.is_some()),
            album_artist: to_buffer::<256>(album_artist.as_str()),
            disc_num: narrow(or_zero(t.disc_num)),
            bpm: to_buffer::<32>(bpm.as_str()),
            comment: to_buffer::<512>(comment.as_str()),
            composer: to_buffer::<256>(composer.as_str()),
            read_only: flag(facts.read_only),
            has_art: flag(t.artwork_path.is_some()),
            artwork_path: to_buffer::<512>(artwork_path.as_str()),
            file_missing: flag(facts.missing),
            last_played: to_buffer::<32>(last_played.as_str()),
            sample_rate: narrow(or_zero(t.sample_rate)),
            file_size: or_zero(t.file_size),
            added_at: to_buffer::<32>(added_at.as_str()),
            file_mtime: to_buffer::<32>(file_mtime.as_str()),
            bitrate_mode: to_buffer::<16>(bitrate_mode.as_str()),
            channels: narrow(or_zero(t.channels)),
            rg_track_gain: loudness(t, t.rg_track_gain),
            rg_track_peak: loudness(t, t.rg_track_peak),
            rg_album_gain: loudness(t, t.rg_album_gain),
            rg_album_peak: loudness(t, t.rg_album_peak),
            rg_analyzed: flag(t.rg_track_gain.is_some()),
        }
    }
}

/// One album as it crosses to C.
pub struct SparkampAlbum {
    pub album: [u8; 256],
    pub album_artist: [u8; 256],
    /// The artwork of one of its tracks, empty where none has any.
    pub artwork_path: [u8; 512],
    /// Means something only where `has_year` is one.
    pub year: i64,
    pub track_count: i64,
    pub has_year: u8,
    /// One for the bucket of every file without an album.
    pub is_no_album: u8,
    pub _pad: [u8; 6],
}

impl SparkampAlbum {
    /// What crosses of an album.
    pub fn from_group(g: &AlbumGroup) -> (r: SparkampAlbum)
        ensures
            r.album@ == buffer::closed_text(g.album@, 256),
            r.album_artist@ == buffer::closed_text(g.album_artist@, 256),
            r.artwork_path@ == buffer::closed_text(media_library::text_of(g.artwork_path), 512),
            r.year == number(g.year),
            r.track_count == g.track_count,
            r.has_year == one_if(g.year is Some),
            r.is_no_album == one_if(g.is_no_album),
            forall|k: int| 0 <= k < 6 ==> #[trigger] r._pad@[k] == 0,
    {
        let artwork = owned_text(&g.artwork_path);
        SparkampAlbum {
            album: to_buffer::<256>(g.album.as_str()),
            album_artist: to_buffer::<256>(g.album_artist.as_str()),
            artwork_path: to_buffer::<512>(artwork.as_str()),
            year: or_zero(g.year),
            track_count: g.track_count,
            has_year: if g.year.is_some() {
                1
            } else {
                0
            },
            is_no_album: if g.is_no_album {
                1
            } else {
                0
            },
            _pad: [0u8;6],
        }
    }
}

/// What a number sorts albums by; any other number is the artist.
pub open spec fn album_sort(sort: u32) -> AlbumSort {
    if sort == 1 {
        AlbumSort::Album
    } else if sort == 2 {
        AlbumSort::Year
    } else {
        AlbumSort::Artist
    }
}

/// What a number sorts albums by.
pub fn album_sort_from_u32(sort: u32) -> (r: AlbumSort)
    ensures
        r == album_sort(sort),
{
    if sort == 1 {
        AlbumSort::Album
    } else if sort == 2 {
        AlbumSort::Year
    } else {
        AlbumSort::Artist
    }
}

/// The texts to append to a saved playlist: none where the list is missing,
/// empty or holds a null; what is not UTF-8 is left out.
pub fn sparkamp_ml_append_paths_to_playlist(open: bool, paths: Option<&Vec<CText>>) -> (r: Option<
    Vec<String>,
>)
    ensures
        match r {
            Some(out) => paths matches Some(list) && open && list@.len() > 0 && !text::holds_null(list@)
                && text::views(out@) == text::readable(list@),
            None => !open || (paths matches Some(list) ==> list@.len() == 0 || text::holds_null(list@)),
        },
{
    let list = match paths {
        Some(list) => list,
        None => return None,
    };
    if !open || list.len() == 0 {
        return None;
    }
    let mut i: usize = 0;
    while i < list.len()
        invariant
            i <= list@.len(),
            paths == Some(list),
            forall|k: int| 0 <= k < i ==> !(#[trigger] list@[k] is Null),
        decreases list@.len() - i,
    {
        if let CText::Null = &list[i] {
            assert(list@[i as int] is Null);
            return None;
        }
        i += 1;
    }
    Some(readable_texts(list))
}

/// The files to add to the library: none where the list is missing or empty;
/// nulls and what is not UTF-8 are left out.
pub fn sparkamp_ml_add_files(open: bool, paths: Option<&Vec<CText>>) -> (r: Option<Vec<String>>)
    ensures
        match r {
            Some(out) => paths matches Some(list) && open && list@.len() > 0 && text::views(out@)
                == text::readable(list@),
            None => !open || (paths matches Some(list) ==> list@.len() == 0),
        },
{
    match paths {
        Some(list) => if open && list.len() > 0 {
            Some(readable_texts(list))
        } else {
            None
        },
        None => None,
    }
}

/// What is to be written where a playlist is saved.
pub struct PlaylistSave {
    /// The place or the name that was asked for.
    pub target: String,
    pub paths: Vec<String>,
    /// The extension of a new file.
    pub extension: String,
}

/// What is to be written where the rows of `paths` are saved under a name or at
/// a place. A missing list is an empty one; a target that is null or not UTF-8,
/// a null context or a closed library saves nothing.
pub fn plan_playlist_save<B: AudioBackend>(
    ctx: Option<&SparkampCtx<B>>,
    open: bool,
    target: &CText,
    paths: Option<&Vec<CText>>,
) -> (r: Option<PlaylistSave>)
    ensures
        match r {
            Some(save) => {
                &&& ctx matches Some(c) && save.extension@
                    == c.config.media_library.playlist_format.ending()
                &&& open
                &&& target matches CText::Text(t) && save.target@ == t@
                &&& text::views(save.paths@) == (match paths {
                    Some(list) => text::readable(list@),
                    None => Seq::empty(),
                })
            },
            None => ctx is None || !open || !(target is Text),
        },
{
    let c = match ctx {
        Some(c) => c,
        None => return None,
    };
    if !open {
        return None;
    }
    let name = match target {
        CText::Text(t) => t.clone(),
        _ => return None,
    };
    let list = match paths {
        Some(list) => readable_texts(list),
        None => Vec::new(),
    };
    assert(paths is None ==> text::views(list@) =~= Seq::empty());
    Some(
        PlaylistSave {
            target: name,
            paths: list,
            extension: c.config.media_library.playlist_format.extension(),
        },
    )
}

/// What is to be written where a playlist is saved at a place.
pub fn sparkamp_ml_save_playlist_to_path<B: AudioBackend>(
    ctx: Option<&SparkampCtx<B>>,
    open: bool,
    target: &CText,
    paths: Option<&Vec<CText>>,
) -> (r: Option<PlaylistSave>)
    ensures
        match r {
            Some(save) => {
                &&& open
                &&& ctx is Some
                &&& target matches CText::Text(t) && save.target@ == t@
                &&& text::views(save.paths@) == (match paths {
                    Some(list) => text::readable(list@),
                    None => Seq::empty(),
                })
            },
            None => ctx is None || !open || !(target is Text),
        },
{
    plan_playlist_save(ctx, open, target, paths)
}

/// What is to be written where a playlist is saved under a new name.
pub fn sparkamp_ml_save_playlist_as<B: AudioBackend>(
    ctx: Option<&SparkampCtx<B>>,
    open: bool,
    new_name: &CText,
    paths: Option<&Vec<CText>>,
) -> (r: Option<PlaylistSave>)
    ensures
        match r {
            Some(save) => {
                &&& ctx matches Some(c) && save.extension@
                    == c.config.media_library.playlist_format.ending()
                &&& open
                &&& new_name matches CText::Text(t) && save.target@ == t@
                &&& text::views(save.paths@) == (match paths {
                    Some(list) => text::readable(list@),
                    None => Seq::empty(),
                })
            },
            None => ctx is None || !open || !(new_name is Text),
        },
{
    plan_playlist_save(ctx, open, new_name, paths)
}

/// What is to be written where an empty playlist is created.
pub fn sparkamp_ml_create_playlist<B: AudioBackend>(
    ctx: Option<&SparkampCtx<B>>,
    open: bool,
    name: &CText,
) -> (r: Option<PlaylistSave>)
    ensures
        match r {
            Some(save) => {
                &&& ctx matches Some(c) && save.extension@
                    == c.config.media_library.playlist_format.ending()
                &&& open
                &&& name matches CText::Text(t) && save.target@ == t@
                &&& save.paths@.len() == 0
            },
            None => ctx is None || !open || !(name is Text),
        },
{
    let r = plan_playlist_save(ctx, open, name, None);
    assert(r matches Some(save) ==> text::views(save.paths@).len() == save.paths@.len());
    r
}

/// Whether the library is to be opened: only where it is not.
pub fn sparkamp_ml_open<B: AudioBackend>(ctx: Option<&SparkampCtx<B>>, open: bool) -> (r: bool)
    ensures
        r == (ctx is Some && !open),
{
    ctx.is_some() && !open
}

/// The folders of the library, each with its number.
pub struct Folder {
    pub id: i64,
    pub path: String,
}

/// The first folder with a path.
pub open spec fn folder_with(folders: Seq<Folder>, path: Seq<char>, i: int) -> bool {
    &&& 0 <= i < folders.len()
    &&& folders[i].path@ == path
    &&& forall|k: int| 0 <= k < i ==> (#[trigger] folders[k]).path@ != path
}

/// No folder has the path.
pub open spec fn no_folder(folders: Seq<Folder>, path: Seq<char>) -> bool {
    forall|k: int| 0 <= k < folders.len() ==> (#[trigger] folders[k]).path@ != path
}

/// The number of the first folder with a path, if one has it.
pub open spec fn answers(folders: Seq<Folder>, path: Seq<char>, id: Option<i64>) -> bool {
    match id {
        Some(n) => exists|i: int| #[trigger] folder_with(folders, path, i) && folders[i].id == n,
        None => no_folder(folders, path),
    }
}

/// The number of the folder with a path. `folders` is `None` while the library
/// is closed.
pub fn folder_named(folders: Option<&Vec<Folder>>, path: &CText) -> (r: Option<i64>)
    ensures
        match (folders, path) {
            (Some(list), CText::Text(p)) => answers(list@, p@, r),
            _ => r is None,
        },
{
    let list = match folders {
        Some(list) => list,
        None => return None,
    };
    let p = match path {
        CText::Text(p) => p,
        _ => return None,
    };
    let mut i: usize = 0;
    while i < list.len()
        invariant
            i <= list@.len(),
            folders == Some(list),
            *path == CText::Text(*p),
            forall|k: int| 0 <= k < i ==> (#[trigger] list@[k]).path@ != p@,
        decreases list@.len() - i,
    {
        if same(list[i].path.as_str(), p.as_str()) {
            let id: i64 = list[i].id;
            assert(folder_with(list@, p@, i as int) && list@[i as int].id == id);
            return Some(id);
        }
        i += 1;
    }
    None
}

/// How many folders the library has, none while it is closed.
pub fn sparkamp_ml_folder_count(folders: Option<&Vec<Folder>>) -> (r: usize)
    ensures
        r == (match folders {
            Some(list) => list@.len(),
            None => 0,
        }),
{
    match folders {
        Some(list) => list.len(),
        None => 0,
    }
}

/// The path of a folder; `None` out of range or while the library is closed.
pub fn sparkamp_ml_folder_path(folders: Option<&Vec<Folder>>, index: i32) -> (r: Option<String>)
    ensures
        match r {
            Some(s) => folders matches Some(list) && 0 <= index < list@.len() && s@
                == list@[index as int].path@ && !s@.contains('\0'),
            None => folders matches Some(list) ==> !(0 <= index < list@.len())
                || list@[index as int].path@.contains('\0'),
        },
{
    let list = match folders {
        Some(list) => list,
        None => return None,
    };
    if index < 0 {
        return None;
    }
    let i: usize = index as usize;
    if i < list.len() && fits_c(list[i].path.as_str()) {
        Some(list[i].path.clone())
    } else {
        None
    }
}

/// The number of the folder to remove, where one has the path.
pub fn sparkamp_ml_remove_folder(folders: Option<&Vec<Folder>>, path: &CText) -> (r: Option<i64>)
    ensures
        match (folders, path) {
            (Some(list), CText::Text(p)) => answers(list@, p@, r),
            _ => r is None,
        },
{
    folder_named(folders, path)
}

/// Whether a folder is scanned into its subfolders: as is kept for it, and yes
/// where nothing is known. `kept` says what is kept for each folder.
pub fn sparkamp_ml_folder_recurse(
    folders: Option<&Vec<Folder>>,
    kept: &Vec<Option<bool>>,
    path: &CText,
) -> (r: bool)
    requires
        folders matches Some(list) ==> kept@.len() == list@.len(),
    ensures
        match (folders, path) {
            (Some(list), CText::Text(p)) => (no_folder(list@, p@) ==> r) && forall|i: int| #[trigger]
                folder_with(list@, p@, i) ==> r == (kept@[i] != Some(false)),
            _ => r,
        },
{
    let list = match folders {
        Some(list) => list,
        None => return true,
    };
    let p = match path {
        CText::Text(p) => p,
        _ => return true,
    };
    let mut i: usize = 0;
    while i < list.len()
        invariant
            i <= list@.len(),
            folders == Some(list),
            *path == CText::Text(*p),
            kept@.len() == list@.len(),
            forall|k: int| 0 <= k < i ==> (#[trigger] list@[k]).path@ != p@,
        decreases list@.len() - i,
    {
        if same(list[i].path.as_str(), p.as_str()) {
            assert(folder_with(list@, p@, i as int));
            let r = match kept[i] {
                Some(b) => b,
                None => true,
            };
            assert forall|k: int| #[trigger] folder_with(list@, p@, k) implies k == i by {
                if k < i {
                    assert(list@[k].path@ != p@);
                } else if k > i {
                    assert(list@[i as int].path@ != p@);
                }
            }
            return r;
        }
        i += 1;
    }
    true
}

/// The number of the folder whose scanning changes, where one has the path.
pub fn sparkamp_ml_set_folder_recurse(
    folders: Option<&Vec<Folder>>,
    path: &CText,
    recurse: bool,
) -> (r: Option<(i64, bool)>)
    ensures
        r matches Some((id, set)) ==> set == recurse,
        match (folders, path) {
            (Some(list), CText::Text(p)) => answers(
                list@,
                p@,
                match r {
                    Some((id, _)) => Some(id),
                    None => None,
                },
            ),
            _ => r is None,
        },
{
    match folder_named(folders, path) {
        Some(id) => Some((id, recurse)),
        None => None,
    }
}

/// The folders to watch, each with whether its subfolders are: none where
/// watching is off, the library is closed or has no folder. Whatever watcher runs
/// is to be dropped first in any case.
pub fn rebuild_watcher<B: AudioBackend>(
    ctx: &SparkampCtx<B>,
    folders: Option<&Vec<Folder>>,
    kept: &Vec<Option<bool>>,
) -> (r: Option<Vec<(String, bool)>>)
    requires
        folders matches Some(list) ==> kept@.len() == list@.len(),
    ensures
        match r {
            Some(out) => {
                &&& ctx.config.media_library.watch_folders
                &&& folders matches Some(list) && list@.len() > 0 && out@.len() == list@.len() && forall|
                    k: int,
                |
                    0 <= k < list@.len() ==> (#[trigger] out@[k]).0@ == list@[k].path@ && out@[k].1 == (
                    kept@[k] != Some(false))
            },
            None => !ctx.config.media_library.watch_folders || (folders matches Some(list) ==> list@.len()
                == 0),
        },
{
    if !ctx.config.media_library.watch_folders {
        return None;
    }
    let list = match folders {
        Some(list) => list,
        None => return None,
    };
    if list.len() == 0 {
        return None;
    }
    let mut out: Vec<(String, bool)> = Vec::new();
    let mut i: usize = 0;
    while i < list.len()
        invariant
            i <= list@.len(),
            kept@.len() == list@.len(),
            out@.len() == i,
            forall|k: int|
                0 <= k < i ==> (#[trigger] out@[k]).0@ == list@[k].path@ && out@[k].1 == (kept@[k]
                    != Some(false)),
        decreases list@.len() - i,
    {
        let recurse = match kept[i] {
            Some(b) => b,
            None => true,
        };
        out.push((list[i].path.clone(), recurse));
        i += 1;
    }
    Some(out)
}

/// What a watched folder reports.
pub enum WatchAction {
    /// A file appeared or changed.
    Upsert(String),
    /// A file is gone.
    Remove(String),
    /// A playlist file appeared or changed.
    PlaylistUpsert(String),
}

/// The number of a report.
pub open spec fn watch_kind(a: WatchAction) -> int {
    match a {
        WatchAction::Upsert(_) => 0,
        WatchAction::Remove(_) => 1,
        WatchAction::PlaylistUpsert(_) => 2,
    }
}

/// The path of a report.
pub open spec fn watch_path(a: WatchAction) -> Seq<char> {
    match a {
        WatchAction::Upsert(p) => p@,
        WatchAction::Remove(p) => p@,
        WatchAction::PlaylistUpsert(p) => p@,
    }
}

/// What crosses of the next report of the watcher, if any: its number, and its
/// path where that can cross.
pub fn sparkamp_ml_poll_watch_event(next: Option<&WatchAction>) -> (r: Option<(i32, Option<String>)>)
    ensures
        match r {
            Some((kind, path)) => {
                &&& next matches Some(a) && kind == watch_kind(*a) && match path {
                    Some(p) => p@ == watch_path(*a) && !p@.contains('\0'),
                    None => watch_path(*a).contains('\0'),
                }
            },
            None => next is None,
        },
{
    let a = match next {
        Some(a) => a,
        None => return None,
    };
    let (kind, path) = match a {
        WatchAction::Upsert(p) => (0, p),
        WatchAction::Remove(p) => (1, p),
        WatchAction::PlaylistUpsert(p) => (2, p),
    };
    let out = if fits_c(path.as_str()) {
        Some(path.clone())
    } else {
        None
    };
    Some((kind, out))
}

/// What is to be done to the library for a report of the watcher, and whether a
/// file that is gone goes out of it for good; nothing while the library is closed.
pub fn watch_to_apply<'a, B: AudioBackend>(
    ctx: Option<&SparkampCtx<B>>,
    open: bool,
    next: Option<&'a WatchAction>,
) -> (r: Option<(&'a WatchAction, bool)>)
    ensures
        r == (match (ctx, next) {
            (Some(c), Some(a)) if open => Some(
                (a, c.config.media_library.remove_missing_on_rescan),
            ),
            _ => None,
        }),
{
    match (ctx, next) {
        (Some(c), Some(a)) => if open {
            Some((a, c.config.media_library.remove_missing_on_rescan))
        } else {
            None
        },
        _ => None,
    }
}

/// Where a played file lies.
#[derive(Debug, Clone, Copy, PartialEq, Eq, Structural)]
pub enum Owner {
    /// Inside a watched folder, which owns it.
    Folder,
    /// Outside every watched folder.
    Nobody,
    /// The library could not say.
    Unknown,
}

/// The file to add to the library because it was played: only where that is
/// asked for, the library is open, and no watched folder owns the file.
pub fn played_to_add<B: AudioBackend>(
    ctx: Option<&SparkampCtx<B>>,
    open: bool,
    path: &CText,
    owner: Owner,
) -> (r: Option<String>)
    ensures
        match r {
            Some(p) => {
                &&& ctx matches Some(c) && c.config.media_library.auto_add_played
                &&& open
                &&& owner == Owner::Nobody
                &&& path matches CText::Text(t) && p@ == t@
            },
            None => {
                ||| ctx is None
                ||| ctx matches Some(c) && !c.config.media_library.auto_add_played
                ||| !open
                ||| owner != Owner::Nobody
                ||| !(path is Text)
            },
        },
{
    let c = match ctx {
        Some(c) => c,
        None => return None,
    };
    if !c.config.media_library.auto_add_played || !open || owner != Owner::Nobody {
        return None;
    }
    match path {
        CText::Text(t) => Some(t.clone()),
        _ => None,
    }
}

/// Whether a played file went into the library as a new one. `added` is what
/// adding it answered, asked only where it is to be added.
pub fn sparkamp_ml_note_played<B: AudioBackend>(
    ctx: Option<&SparkampCtx<B>>,
    open: bool,
    path: &CText,
    owner: Owner,
    added: Option<bool>,
) -> (r: bool)
    ensures
        r == (added == Some(true) && open && owner == Owner::Nobody && path is Text && (ctx matches Some(
            c,
        ) && c.config.media_library.auto_add_played)),
{
    match played_to_add(ctx, open, path, owner) {
        Some(_) => match added {
            Some(created) => created,
            None => false,
        },
        None => false,
    }
}

/// A background job over many files: how far it is, whether it runs, and whether
/// it was asked to stop.
#[derive(Debug, Clone, Copy, PartialEq, Eq, Structural)]
pub struct ScanJob {
    /// The total in the high half, how many are done in the low half.
    pub progress: u64,
    pub running: bool,
    pub cancel: bool,
}

/// Progress in one number.
pub open spec fn packed(done: u32, total: u32) -> u64 {
    ((total as u64) << 32) | (done as u64)
}

/// How many are done.
pub open spec fn done_in(packed: u64) -> u64 {
    packed & 0xFFFF_FFFF
}

/// How many there are.
pub open spec fn total_in(packed: u64) -> u64 {
    packed >> 32
}

/// Progress reads back as it was put in.
pub proof fn law_progress_reads_back(done: u32, total: u32)
    ensures
        done_in(packed(done, total)) == done,
        total_in(packed(done, total)) == total,
{
    assert(((((total as u64) << 32) | (done as u64)) & 0xFFFF_FFFF) == done as u64) by (bit_vector);
    assert(((((total as u64) << 32) | (done as u64)) >> 32) == total as u64) by (bit_vector);
}

impl ScanJob {
    pub fn new() -> (r: ScanJob)
        ensures
            r == (ScanJob { progress: 0, running: false, cancel: false }),
    {
        ScanJob { progress: 0, running: false, cancel: false }
    }

    /// A job begins: nothing is asked to stop it.
    pub fn start(&mut self)
        ensures
            *final(self) == (ScanJob { running: true, cancel: false, ..*old(self) }),
    {
        self.running = true;
        self.cancel = false;
    }

    /// The job is at a file.
    pub fn note(&mut self, done: u32, total: u32)
        ensures
            *final(self) == (ScanJob { progress: packed(done, total), ..*old(self) }),
    {
        self.progress = ((total as u64) << 32) | (done as u64);
    }

    /// The job ended, however it did.
    pub fn finish(&mut self)
        ensures
            *final(self) == (ScanJob { running: false, ..*old(self) }),
    {
        self.running = false;
    }

    /// The job is asked to stop; nothing happens where none runs.
    pub fn ask_to_stop(&mut self)
        ensures
            *final(self) == (ScanJob {
                cancel: old(self).cancel || old(self).running,
                ..*old(self)
            }),
    {
        if self.running {
            self.cancel = true;
        }
    }

    /// How many are done and how many there are; nothing of nothing where none
    /// runs.
    pub fn progress(&self) -> (r: (u64, u64))
        ensures
            r == (if self.running {
                (done_in(self.progress), total_in(self.progress))
            } else {
                (0, 0)
            }),
    {
        if self.running {
            (self.progress & 0xFFFF_FFFF, self.progress >> 32)
        } else {
            (0, 0)
        }
    }
}

/// Whatever a job did before, one that begins is not asked to stop, and one that
/// ended does not run.
pub proof fn law_a_job_begins_and_ends(job: ScanJob, done: u32, total: u32)
    ensures
        ({
            let begun = ScanJob { running: true, cancel: false, ..job };
            let at = ScanJob { progress: packed(done, total), ..begun };
            let ended = ScanJob { running: false, ..at };
            &&& begun.running && !begun.cancel
            &&& done_in(at.progress) == done && total_in(at.progress) == total
            &&& !ended.running
        }),
{
    law_progress_reads_back(done, total);
}

/// Asks a running scan to stop.
pub fn sparkamp_ml_cancel_scan(job: &mut ScanJob)
    ensures
        *final(job) == (ScanJob { cancel: old(job).cancel || old(job).running, ..*old(job) }),
{
    job.ask_to_stop();
}

/// One where a scan runs.
pub fn sparkamp_ml_scan_is_running(job: Option<&ScanJob>) -> (r: i32)
    ensures
        r == (match job {
            Some(j) if j.running => 1,
            _ => 0int,
        }),
{
    match job {
        Some(j) => flag(j.running),
        None => 0,
    }
}

/// How far a scan is; nothing of nothing where none runs.
pub fn sparkamp_ml_scan_progress(job: Option<&ScanJob>) -> (r: (u64, u64))
    ensures
        r == (match job {
            Some(j) if j.running => (done_in(j.progress), total_in(j.progress)),
            _ => (0u64, 0u64),
        }),
{
    match job {
        Some(j) => j.progress(),
        None => (0, 0),
    }
}

/// Asks a running gain analysis to stop.
pub fn sparkamp_rg_analyze_cancel(job: &mut ScanJob)
    ensures
        *final(job) == (ScanJob { cancel: old(job).cancel || old(job).running, ..*old(job) }),
{
    job.ask_to_stop();
}

/// One where a gain analysis runs.
pub fn sparkamp_rg_analyze_is_running(job: Option<&ScanJob>) -> (r: i32)
    ensures
        r == (match job {
            Some(j) if j.running => 1,
            _ => 0int,
        }),
{
    sparkamp_ml_scan_is_running(job)
}

/// How far a gain analysis is; nothing of nothing where none runs.
pub fn sparkamp_rg_analyze_progress(job: Option<&ScanJob>) -> (r: (u64, u64))
    ensures
        r == (match job {
            Some(j) if j.running => (done_in(j.progress), total_in(j.progress)),
            _ => (0u64, 0u64),
        }),
{
    sparkamp_ml_scan_progress(job)
}

/// What adding a folder does next.
pub enum FolderStep {
    /// The folder is to be registered.
    Register { path: String },
    /// Its files are to be noted by their names.
    NoteFiles { id: i64, path: String, remove_missing: bool },
    /// Its files are to be read in the background; the job has begun.
    ReadFiles { id: i64 },
    /// Nothing more is done.
    Stop,
}

/// What happened while a folder was added.
pub enum FolderEvent {
    /// A folder was asked for.
    Asked { open: bool, wanted: CText },
    /// Registering it answered with its number, or failed.
    Registered { number: Option<i64>, path: String },
    /// Noting its files succeeded or failed.
    Noted { id: i64, ok: bool },
}

/// What adding a folder does next.
pub open spec fn folder_step(e: FolderEvent, remove_missing: bool, s: FolderStep) -> bool {
    match e {
        FolderEvent::Asked { open, wanted } => match wanted {
            CText::Text(p) if open => s matches FolderStep::Register { path: q } && q@ == p@,
            _ => s is Stop,
        },
        FolderEvent::Registered { number, path } => match number {
            Some(n) => s matches FolderStep::NoteFiles { id: m, path: q, remove_missing: gone } && m == n
                && q@ == path@ && gone == remove_missing,
            None => s is Stop,
        },
        FolderEvent::Noted { id, ok } => if ok {
            s matches FolderStep::ReadFiles { id: m } && m == id
        } else {
            s is Stop
        },
    }
}

/// Adds a folder to the library, one step at a time: it is registered, its files
/// are noted, and they are read in the background. A step that fails ends it.
pub fn sparkamp_ml_add_folder<B: AudioBackend>(
    ctx: Option<&SparkampCtx<B>>,
    job: &mut ScanJob,
    event: FolderEvent,
) -> (r: FolderStep)
    ensures
        match ctx {
            Some(c) => folder_step(event, c.config.media_library.remove_missing_on_rescan, r),
            None => r is Stop,
        },
        *final(job) == (if r is ReadFiles {
            ScanJob { running: true, cancel: false, ..*old(job) }
        } else {
            *old(job)
        }),
{
    let c = match ctx {
        Some(c) => c,
        None => return FolderStep::Stop,
    };
    match event {
        FolderEvent::Asked { open, wanted } => match wanted {
            CText::Text(p) => if open {
                FolderStep::Register { path: p }
            } else {
                FolderStep::Stop
            },
            _ => FolderStep::Stop,
        },
        FolderEvent::Registered { number, path } => match number {
            Some(n) => FolderStep::NoteFiles {
                id: n,
                path,
                remove_missing: c.config.media_library.remove_missing_on_rescan,
            },
            None => FolderStep::Stop,
        },
        FolderEvent::Noted { id, ok } => if ok {
            job.start();
            FolderStep::ReadFiles { id }
        } else {
            FolderStep::Stop
        },
    }
}

/// How a rescan of every folder goes.
#[derive(Debug, Clone, Copy, PartialEq, Eq, Structural)]
pub struct RescanPlan {
    /// Rows whose files are gone are removed.
    pub remove_missing: bool,
    /// The library is compacted once everything was read.
    pub compact_after: bool,
}

/// Begins a rescan of every folder: nothing where the library is closed.
pub fn sparkamp_ml_rescan_all<B: AudioBackend>(
    ctx: Option<&SparkampCtx<B>>,
    open: bool,
    job: &mut ScanJob,
) -> (r: Option<RescanPlan>)
    ensures
        r == (match ctx {
            Some(c) if open => Some(
                RescanPlan {
                    remove_missing: c.config.media_library.remove_missing_on_rescan,
                    compact_after: c.config.media_library.compact_on_rescan,
                },
            ),
            _ => None,
        }),
        *final(job) == (if r is Some {
            ScanJob { running: true, cancel: false, ..*old(job) }
        } else {
            *old(job)
        }),
{
    match ctx {
        Some(c) => if open {
            job.start();
            Some(
                RescanPlan {
                    remove_missing: c.config.media_library.remove_missing_on_rescan,
                    compact_after: c.config.media_library.compact_on_rescan,
                },
            )
        } else {
            None
        },
        None => None,
    }
}

/// What a rescan does next, in the background.
#[derive(Debug, Clone, Copy, PartialEq, Eq, Structural)]
pub enum RescanStep {
    /// The folder with this place in the list is to be walked.
    Walk(usize),
    /// The rows that hold nothing are to be marked, and every file read.
    ReadAll,
    /// The library is to be compacted.
    Compact,
    /// The job ended.
    Done,
}

/// What happened while every folder was rescanned.
#[derive(Debug, Clone, Copy, PartialEq, Eq, Structural)]
pub enum RescanEvent {
    /// So many folders were walked, whatever came of it.
    Walked(usize),
    /// Reading every file succeeded or failed.
    ReadAll(bool),
    /// Compacting ended.
    Compacted,
}

/// What a rescan does next: it walks the folders until it is asked to stop, then
/// reads every file, then compacts where that is asked for and the reading
/// succeeded.
pub open spec fn rescan_step(
    e: RescanEvent,
    folders: int,
    plan: RescanPlan,
    cancel: bool,
) -> RescanStep {
    match e {
        RescanEvent::Walked(n) => if n < folders && !cancel {
            RescanStep::Walk(n)
        } else {
            RescanStep::ReadAll
        },
        RescanEvent::ReadAll(ok) => if ok && plan.compact_after {
            RescanStep::Compact
        } else {
            RescanStep::Done
        },
        RescanEvent::Compacted => RescanStep::Done,
    }
}

/// What a rescan does next. The job ends with it.
pub fn rescan_next(
    event: RescanEvent,
    folders: usize,
    plan: RescanPlan,
    job: &mut ScanJob,
) -> (r: RescanStep)
    ensures
        r == rescan_step(event, folders as int, plan, old(job).cancel),
        *final(job) == (if r == RescanStep::Done {
            ScanJob { running: false, ..*old(job) }
        } else {
            *old(job)
        }),
{
    let r = match event {
        RescanEvent::Walked(n) => if n < folders && !job.cancel {
            RescanStep::Walk(n)
        } else {
            RescanStep::ReadAll
        },
        RescanEvent::ReadAll(ok) => if ok && plan.compact_after {
            RescanStep::Compact
        } else {
            RescanStep::Done
        },
        RescanEvent::Compacted => RescanStep::Done,
    };
    if r == RescanStep::Done {
        job.finish();
    }
    r
}

/// How far a rescan is from its end.
pub open spec fn rescan_left(e: RescanEvent, folders: int) -> int {
    match e {
        RescanEvent::Walked(n) => if n < folders {
            folders - n + 3
        } else {
            3
        },
        RescanEvent::ReadAll(_) => 2,
        RescanEvent::Compacted => 1,
    }
}

/// A rescan ends: every step leads to an event that is nearer to the end, however
/// the step came out.
pub proof fn law_a_rescan_ends(e: RescanEvent, folders: int, plan: RescanPlan, cancel: bool, ok: bool)
    requires
        0 <= folders <= usize::MAX,
    ensures
        match rescan_step(e, folders, plan, cancel) {
            RescanStep::Walk(n) => n < folders && rescan_left(
                RescanEvent::Walked((n + 1) as usize),
                folders,
            ) < rescan_left(e, folders),
            RescanStep::ReadAll => rescan_left(RescanEvent::ReadAll(ok), folders) < rescan_left(
                e,
                folders,
            ),
            RescanStep::Compact => rescan_left(RescanEvent::Compacted, folders) < rescan_left(
                e,
                folders,
            ),
            RescanStep::Done => true,
        },
{
}

/// How a gain analysis begins.
#[derive(Debug, Clone, Copy, PartialEq, Eq, Structural)]
pub enum RgStart {
    /// One already runs; nothing happens.
    Refused,
    /// It cannot be done here: it is over at once.
    Unavailable,
    /// It runs; `write_tags` says whether files are written.
    Begun { write_tags: bool },
}

/// Begins a gain analysis: one at a time, and over at once where it cannot be
/// done.
pub fn rg_spawn_analysis<B: AudioBackend>(
    ctx: &SparkampCtx<B>,
    job: &mut ScanJob,
    available: bool,
) -> (r: RgStart)
    ensures
        r == (if old(job).running {
            RgStart::Refused
        } else if !available {
            RgStart::Unavailable
        } else {
            RgStart::Begun { write_tags: ctx.config.playback.replaygain.write_tags }
        }),
        *final(job) == (if r is Begun {
            ScanJob { progress: 0, running: true, cancel: false }
        } else {
            *old(job)
        }),
{
    if job.running {
        return RgStart::Refused;
    }
    if !available {
        return RgStart::Unavailable;
    }
    job.start();
    job.progress = 0;
    RgStart::Begun { write_tags: ctx.config.playback.replaygain.write_tags }
}

/// Begins an analysis of every file that needs one; nothing while the library is
/// closed.
pub fn sparkamp_rg_analyze_missing<B: AudioBackend>(
    ctx: Option<&SparkampCtx<B>>,
    open: bool,
    job: &mut ScanJob,
    available: bool,
) -> (r: Option<RgStart>)
    ensures
        match ctx {
            Some(c) if open => r == Some(
                if old(job).running {
                    RgStart::Refused
                } else if !available {
                    RgStart::Unavailable
                } else {
                    RgStart::Begun { write_tags: c.config.playback.replaygain.write_tags }
                },
            ),
            _ => r is None,
        },
        *final(job) == (match r {
            Some(RgStart::Begun { .. }) => ScanJob { progress: 0, running: true, cancel: false },
            _ => *old(job),
        }),
{
    match ctx {
        Some(c) => if open {
            Some(rg_spawn_analysis(c, job, available))
        } else {
            None
        },
        None => None,
    }
}

/// Begins an analysis of the files named, whatever is known of them; nothing
/// while the library is closed or where none is named.
pub fn sparkamp_rg_analyze_selection<B: AudioBackend>(
    ctx: Option<&SparkampCtx<B>>,
    open: bool,
    ids: Option<&Vec<i64>>,
    job: &mut ScanJob,
    available: bool,
) -> (r: Option<RgStart>)
    ensures
        match (ctx, ids) {
            (Some(c), Some(list)) if open && list@.len() > 0 => r == Some(
                if old(job).running {
                    RgStart::Refused
                } else if !available {
                    RgStart::Unavailable
                } else {
                    RgStart::Begun { write_tags: c.config.playback.replaygain.write_tags }
                },
            ),
            _ => r is None,
        },
        *final(job) == (match r {
            Some(RgStart::Begun { .. }) => ScanJob { progress: 0, running: true, cancel: false },
            _ => *old(job),
        }),
{
    match (ctx, ids) {
        (Some(c), Some(list)) => if open && list.len() > 0 {
            Some(rg_spawn_analysis(c, job, available))
        } else {
            None
        },
        _ => None,
    }
}

/// Which rows of the library a view asks for.
pub enum TrackQuery {
    All,
    Search(String),
    AllSorted { column: String, descending: bool },
    SearchSorted { query: String, column: String, descending: bool },
}

/// Which rows a search text and a column ask for; either may be missing.
pub open spec fn asks(q: TrackQuery, query: Seq<char>, column: Seq<char>, descending: bool) -> bool {
    match q {
        TrackQuery::All => query.len() == 0 && column.len() == 0,
        TrackQuery::Search(s) => query.len() > 0 && column.len() == 0 && s@ == query,
        TrackQuery::AllSorted { column: c, descending: d } => query.len() == 0 && column.len() > 0 && c@
            == column && d == descending,
        TrackQuery::SearchSorted { query: s, column: c, descending: d } => query.len() > 0
            && column.len() > 0 && s@ == query && c@ == column && d == descending,
    }
}

/// Which rows a view asks for.
pub fn track_query(query: &CText, sort_col: &CText, sort_desc: i32) -> (r: TrackQuery)
    ensures
        asks(r, text::c_given(*query), text::c_given(*sort_col), sort_desc != 0),
{
    let q = c_or_empty(query);
    let col = c_or_empty(sort_col);
    let descending = sort_desc != 0;
    if col.as_str().unicode_len() == 0 {
        if q.as_str().unicode_len() == 0 {
            TrackQuery::All
        } else {
            TrackQuery::Search(q)
        }
    } else if q.as_str().unicode_len() == 0 {
        TrackQuery::AllSorted { column: col, descending }
    } else {
        TrackQuery::SearchSorted { query: q, column: col, descending }
    }
}

/// Where a page starts: past the end for an offset that is negative or too
/// great.
pub open spec fn page_start(len: nat, offset: i32) -> int {
    if 0 <= offset <= len {
        offset as int
    } else {
        len as int
    }
}

/// Where a page ends.
pub open spec fn page_end(len: nat, offset: i32, limit: i32) -> int {
    if page_start(len, offset) + limit <= len {
        page_start(len, offset) + limit
    } else {
        len as int
    }
}

/// A page of rows as they cross to C. `facts` is what the file system says of
/// each row.
pub fn sparkamp_ml_get_tracks(
    tracks: &Vec<LibTrack>,
    facts: &Vec<FileFacts>,
    offset: i32,
    limit: i32,
) -> (r: Vec<SparkampLibTrack>)
    requires
        facts@.len() == tracks@.len(),
        limit >= 0,
    ensures
        r@.len() == page_end(tracks@.len(), offset, limit) - page_start(tracks@.len(), offset),
        forall|k: int|
            0 <= k < r@.len() ==> (#[trigger] r@[k]).stands_for(
                &tracks@[page_start(tracks@.len(), offset) + k],
                facts@[page_start(tracks@.len(), offset) + k],
            ),
{
    let n: usize = tracks.len();
    let start: usize = if offset >= 0 && (offset as usize) <= n {
        offset as usize
    } else {
        n
    };
    let end: usize = if (limit as usize) <= n - start {
        start + limit as usize
    } else {
        n
    };
    rows_between(tracks, facts, start, end)
}

fn rows_between(
    tracks: &Vec<LibTrack>,
    facts: &Vec<FileFacts>,
    start: usize,
    end: usize,
) -> (r: Vec<SparkampLibTrack>)
    requires
        facts@.len() == tracks@.len(),
        start <= end <= tracks@.len(),
    ensures
        r@.len() == end - start,
        forall|k: int|
            0 <= k < r@.len() ==> (#[trigger] r@[k]).stands_for(
                &tracks@[start + k],
                facts@[start + k],
            ),
{
    let mut out: Vec<SparkampLibTrack> = Vec::new();
    let mut i: usize = start;
    while i < end
        invariant
            start <= i <= end,
            end <= tracks@.len(),
            facts@.len() == tracks@.len(),
            out@.len() == i - start,
            forall|k: int|
                0 <= k < out@.len() ==> (#[trigger] out@[k]).stands_for(
                    &tracks@[start + k],
                    facts@[start + k],
                ),
        decreases end - i,
    {
        out.push(SparkampLibTrack::from_lib_track(&tracks[i], facts[i]));
        i += 1;
    }
    out
}

/// How many rows fit: no more than `limit`, none for a negative one.
pub open spec fn fitting(len: nat, limit: i32) -> int {
    if limit <= 0 {
        0
    } else if limit < len {
        limit as int
    } else {
        len as int
    }
}

fn fits(len: usize, limit: i32) -> (r: usize)
    ensures
        r == fitting(len as nat, limit),
        r <= len,
{
    if limit <= 0 {
        0
    } else if (limit as usize) < len {
        limit as usize
    } else {
        len
    }
}

/// A question to the library for its albums.
#[derive(Debug, Clone, Copy, PartialEq, Eq, Structural)]
pub struct AlbumQuery {
    pub sort: AlbumSort,
    /// Whether an artist stands in where a track names no album artist.
    pub artist_as_album_artist: bool,
}

/// The question that brings the albums; none while the library is closed. Whether
/// an artist stands in for an album artist is as is set.
pub fn album_query<B: AudioBackend>(ctx: Option<&SparkampCtx<B>>, open: bool, sort: u32) -> (r: Option<
    AlbumQuery,
>)
    ensures
        r == (match ctx {
            Some(c) if open => Some(
                AlbumQuery {
                    sort: album_sort(sort),
                    artist_as_album_artist: c.config.media_library.artist_as_album_artist,
                },
            ),
            _ => None,
        }),
{
    match ctx {
        Some(c) => if open {
            Some(
                AlbumQuery {
                    sort: album_sort_from_u32(sort),
                    artist_as_album_artist: c.config.media_library.artist_as_album_artist,
                },
            )
        } else {
            None
        },
        None => None,
    }
}

/// A question to the library for the tracks of an album.
pub struct AlbumTracksQuery {
    /// Empty for the tracks without an album.
    pub album: String,
    pub album_artist: String,
    /// Whether an artist stands in where a track names no album artist.
    pub artist_as_album_artist: bool,
}

/// The question that brings the tracks of an album; none while the library is
/// closed. A text that was not given is empty.
pub fn album_tracks_query<B: AudioBackend>(
    ctx: Option<&SparkampCtx<B>>,
    open: bool,
    album: &CText,
    album_artist: &CText,
) -> (r: Option<AlbumTracksQuery>)
    ensures
        match r {
            Some(q) => {
                &&& open
                &&& q.album@ == text::c_given(*album)
                &&& q.album_artist@ == text::c_given(*album_artist)
                &&& ctx matches Some(c) && q.artist_as_album_artist
                    == c.config.media_library.artist_as_album_artist
            },
            None => ctx is None || !open,
        },
{
    match ctx {
        Some(c) => if open {
            Some(
                AlbumTracksQuery {
                    album: c_or_empty(album),
                    album_artist: c_or_empty(album_artist),
                    artist_as_album_artist: c.config.media_library.artist_as_album_artist,
                },
            )
        } else {
            None
        },
        None => None,
    }
}

/// How many albums there are; none while the library is closed.
pub fn sparkamp_ml_album_count(groups: Option<&Vec<AlbumGroup>>) -> (r: usize)
    ensures
        r == (match groups {
            Some(list) => list@.len(),
            None => 0,
        }),
{
    match groups {
        Some(list) => list.len(),
        None => 0,
    }
}

/// The first albums as they cross to C, no more than `limit`.
pub fn sparkamp_ml_albums(groups: &Vec<AlbumGroup>, limit: i32) -> (r: Vec<SparkampAlbum>)
    ensures
        r@.len() == fitting(groups@.len(), limit),
        forall|k: int|
            0 <= k < r@.len() ==> (#[trigger] r@[k]).album@ == buffer::closed_text(
                groups@[k].album@,
                256,
            ) && r@[k].album_artist@ == buffer::closed_text(groups@[k].album_artist@, 256)
                && r@[k].artwork_path@ == buffer::closed_text(
                media_library::text_of(groups@[k].artwork_path),
                512,
            ) && r@[k].year == number(groups@[k].year) && r@[k].track_count == groups@[k].track_count
                && r@[k].has_year == one_if(groups@[k].year is Some) && r@[k].is_no_album == one_if(
                groups@[k].is_no_album,
            ),
{
    let n: usize = fits(groups.len(), limit);
    let mut out: Vec<SparkampAlbum> = Vec::new();
    let mut i: usize = 0;
    while i < n
        invariant
            i <= n,
            n <= groups@.len(),
            out@.len() == i,
            forall|k: int|
                0 <= k < i ==> (#[trigger] out@[k]).album@ == buffer::closed_text(
                    groups@[k].album@,
                    256,
                ) && out@[k].album_artist@ == buffer::closed_text(groups@[k].album_artist@, 256)
                    && out@[k].artwork_path@ == buffer::closed_text(
                    media_library::text_of(groups@[k].artwork_path),
                    512,
                ) && out@[k].year == number(groups@[k].year) && out@[k].track_count
                    == groups@[k].track_count && out@[k].has_year == one_if(groups@[k].year is Some)
                    && out@[k].is_no_album == one_if(groups@[k].is_no_album),
        decreases n - i,
    {
        out.push(SparkampAlbum::from_group(&groups[i]));
        i += 1;
    }
    out
}

/// The first tracks of an album as they cross to C, no more than `limit`.
pub fn sparkamp_ml_album_tracks(
    tracks: &Vec<LibTrack>,
    facts: &Vec<FileFacts>,
    limit: i32,
) -> (r: Vec<SparkampLibTrack>)
    requires
        facts@.len() == tracks@.len(),
    ensures
        r@.len() == fitting(tracks@.len(), limit),
        forall|k: int|
            0 <= k < r@.len() ==> (#[trigger] r@[k]).stands_for(&tracks@[k], facts@[k]),
{
    let n: usize = fits(tracks.len(), limit);
    let out = rows_between(tracks, facts, 0, n);
    assert forall|k: int| 0 <= k < out@.len() implies (#[trigger] out@[k]).stands_for(
        &tracks@[k],
        facts@[k],
    ) by {
        assert(out@[k].stands_for(&tracks@[0 + k], facts@[0 + k]));
    }
    out
}

/// The first tracks of a saved playlist as they cross to C, no more than
/// `limit`.
pub fn sparkamp_ml_get_playlist_tracks(
    tracks: &Vec<LibTrack>,
    facts: &Vec<FileFacts>,
    limit: i32,
) -> (r: Vec<SparkampLibTrack>)
    requires
        facts@.len() == tracks@.len(),
    ensures
        r@.len() == fitting(tracks@.len(), limit),
        forall|k: int|
            0 <= k < r@.len() ==> (#[trigger] r@[k]).stands_for(&tracks@[k], facts@[k]),
{
    sparkamp_ml_album_tracks(tracks, facts, limit)
}

/// Whether an entry still has to be read: the library could not tell its length.
pub fn needs_probe(t: &Track) -> (r: bool)
    ensures
        r == (t@.duration is None),
{
    t.duration.is_none()
}

/// The rows that stand for files of the library.
pub open spec fn rows_of(tracks: Seq<LibTrack>) -> Seq<model::TrackView> {
    tracks.map_values(|t: LibTrack| t.as_row())
}

/// The files that ids name, in the order of the ids; an id that names none is
/// left out.
pub open spec fn named_files(ids: Seq<i64>, found: Seq<LibTrack>) -> Seq<model::TrackView>
    decreases ids.len(),
{
    if ids.len() == 0 {
        Seq::empty()
    } else {
        let head = named_files(ids.drop_last(), found);
        match first_with(found, ids.last()) {
            Some(i) => head.push(found[i].as_row()),
            None => head,
        }
    }
}

/// The first file with an id.
pub open spec fn first_with(found: Seq<LibTrack>, id: i64) -> Option<int>
    decreases found.len(),
{
    if found.len() == 0 {
        None
    } else {
        match first_with(found.drop_last(), id) {
            Some(i) => Some(i),
            None => if found.last().id == id {
                Some(found.len() - 1)
            } else {
                None
            },
        }
    }
}

proof fn lemma_first_with(found: Seq<LibTrack>, id: i64)
    ensures
        match first_with(found, id) {
            Some(i) => 0 <= i < found.len() && found[i].id == id && forall|k: int|
                0 <= k < i ==> (#[trigger] found[k]).id != id,
            None => forall|k: int| 0 <= k < found.len() ==> (#[trigger] found[k]).id != id,
        },
    decreases found.len(),
{
    if found.len() > 0 {
        let head = found.drop_last();
        lemma_first_with(head, id);
        assert forall|k: int| 0 <= k < head.len() implies #[trigger] found[k] == head[k] by {}
    }
}

fn find_file(found: &Vec<LibTrack>, id: i64) -> (r: Option<usize>)
    ensures
        match r {
            Some(i) => first_with(found@, id) == Some(i as int) && i < found@.len(),
            None => first_with(found@, id) is None,
        },
{
    proof {
        lemma_first_with(found@, id);
    }
    let mut i: usize = 0;
    while i < found.len()
        invariant
            i <= found@.len(),
            forall|k: int| 0 <= k < i ==> (#[trigger] found@[k]).id != id,
        decreases found@.len() - i,
    {
        if found[i].id == id {
            proof {
                lemma_first_with(found@, id);
            }
            return Some(i);
        }
        i += 1;
    }
    proof {
        lemma_first_with(found@, id);
    }
    None
}

/// The entries from a row on that still have to be read: their ids and paths.
pub open spec fn unread(rows: Seq<model::TrackView>, from: int, to: int) -> Seq<(u64, Seq<char>)>
    decreases to - from,
{
    if to <= from {
        Seq::empty()
    } else {
        let head = unread(rows, from, to - 1);
        if rows[to - 1].duration is None {
            head.push((rows[to - 1].id, rows[to - 1].path))
        } else {
            head
        }
    }
}

/// What a list of ids and paths holds.
pub open spec fn probe_views(list: Seq<(u64, String)>) -> Seq<(u64, Seq<char>)> {
    list.map_values(|e: (u64, String)| (e.0, e.1@))
}

fn unread_rows<B: AudioBackend>(ctx: &SparkampCtx<B>, from: usize) -> (r: Vec<(u64, String)>)
    requires
        from <= ctx.playlist@.rows.len(),
    ensures
        probe_views(r@) == unread(ctx.playlist@.rows, from as int, ctx.playlist@.rows.len() as int),
{
    let n: usize = ctx.playlist.len();
    let mut out: Vec<(u64, String)> = Vec::new();
    let mut i: usize = from;
    assert(probe_views(out@) =~= Seq::empty());
    while i < n
        invariant
            from <= i <= n,
            n == ctx.playlist@.rows.len(),
            probe_views(out@) == unread(ctx.playlist@.rows, from as int, i as int),
        decreases n - i,
    {
        let ghost before = out@;
        if let Some(t) = ctx.playlist.track(i) {
            if needs_probe(t) {
                out.push((t.id, t.path.clone()));
                assert(probe_views(out@) =~= probe_views(before).push((t.id, t.path@)));
            }
        }
        i += 1;
    }
    out
}

/// Adds the files that ids name to the list, with what the library knows of
/// them. `found` is what the library answered for the ids. The entries it could
/// not tell the length of, which are still to be read.
pub fn sparkamp_ml_add_tracks_to_playlist<B: AudioBackend>(
    ctx: Option<&mut SparkampCtx<B>>,
    ids: &Vec<i64>,
    found: &Vec<LibTrack>,
) -> (r: Vec<(u64, String)>)
    requires
        ctx matches Some(c) ==> c.wf() && c.playlist@.room(
            (c.playlist@.rows.len() + ids@.len()) as int,
        ) && c.playlist@.rows.len() + ids@.len() <= usize::MAX,
    ensures
        ctx is None ==> r@.len() == 0,
        ctx matches Some(c) ==> {
            &&& final(c).wf()
            &&& *final(c) == (SparkampCtx {
                playlist: final(c).playlist,
                queue: final(c).queue,
                ..*c
            })
            &&& if ids@.len() == 0 {
                *final(c) == *c && r@.len() == 0
            } else {
                &&& queue::in_line(
                    *final(c),
                    (model::PlaylistView {
                        rows: c.playlist@.rows + named_files(ids@, found@),
                        ..c.playlist@
                    }),
                    c.queue@,
                )
                &&& probe_views(r@) == unread(
                    final(c).playlist@.rows,
                    c.playlist@.rows.len() as int,
                    final(c).playlist@.rows.len() as int,
                )
            }
        },
{
    let c = match ctx {
        Some(c) => c,
        None => return Vec::new(),
    };
    if ids.len() == 0 {
        return Vec::new();
    }
    let ghost before = *c;
    let start: usize = c.playlist.len();
    let mut i: usize = 0;
    assert(ids@.subrange(0, 0) =~= Seq::empty());
    assert(before.playlist@.rows + Seq::<model::TrackView>::empty() =~= before.playlist@.rows);
    while i < ids.len()
        invariant
            i <= ids@.len(),
            start == before.playlist@.rows.len(),
            before.playlist@.rows.len() + ids@.len() <= usize::MAX,
            c.sound(),
            named_files(ids@.subrange(0, i as int), found@).len() <= i,
            c.playlist@ == (model::PlaylistView {
                rows: before.playlist@.rows + named_files(ids@.subrange(0, i as int), found@),
                ..before.playlist@
            }),
            *c == (SparkampCtx { playlist: c.playlist, ..before }),
        decreases ids@.len() - i,
    {
        let ghost head = ids@.subrange(0, i + 1);
        assert(head.drop_last() =~= ids@.subrange(0, i as int));
        assert(head.last() == ids@[i as int]);
        if let Some(k) = find_file(found, ids[i]) {
            let ghost rows = c.playlist@.rows;
            c.playlist.push(found[k].to_track());
            assert(c.playlist@.rows =~= before.playlist@.rows + named_files(head, found@)) by {
                assert(found@[k as int].as_row().id == 0);
            }
        }
        i += 1;
    }
    assert(ids@.subrange(0, i as int) =~= ids@);
    sync_queue_to_playlist(c);
    unread_rows(c, start)
}

/// Takes over a saved playlist as the list; whatever was queued of the old one
/// goes. `tracks` is what the library holds of it. The entries that are still to
/// be read.
pub fn sparkamp_ml_set_current_playlist<B: AudioBackend>(
    ctx: Option<&mut SparkampCtx<B>>,
    tracks: Option<&Vec<LibTrack>>,
) -> (r: Vec<(u64, String)>)
    requires
        ctx matches Some(c) ==> c.wf() && (tracks matches Some(list) ==> c.playlist@.room(
            list@.len() as int,
        )),
    ensures
        ctx is None ==> r@.len() == 0,
        ctx matches Some(c) ==> {
            &&& final(c).wf()
            &&& *final(c) == (SparkampCtx {
                playlist: final(c).playlist,
                queue: final(c).queue,
                ..*c
            })
            &&& match tracks {
                Some(list) => {
                    &&& queue::in_line(
                        *final(c),
                        (model::PlaylistView {
                            rows: rows_of(list@),
                            current: 0,
                            next_id: c.playlist@.next_id,
                        }),
                        c.queue@,
                    )
                    &&& probe_views(r@) == unread(
                        final(c).playlist@.rows,
                        0,
                        final(c).playlist@.rows.len() as int,
                    )
                },
                None => *final(c) == *c && r@.len() == 0,
            }
        },
{
    let c = match ctx {
        Some(c) => c,
        None => return Vec::new(),
    };
    let list = match tracks {
        Some(list) => list,
        None => return Vec::new(),
    };
    let ghost before = *c;
    c.playlist.clear();
    let mut i: usize = 0;
    assert(c.playlist@.rows =~= rows_of(list@.subrange(0, 0)));
    while i < list.len()
        invariant
            i <= list@.len(),
            c.sound(),
            c.playlist@ == (model::PlaylistView {
                rows: rows_of(list@.subrange(0, i as int)),
                current: 0,
                next_id: before.playlist@.next_id,
            }),
            *c == (SparkampCtx { playlist: c.playlist, ..before }),
        decreases list@.len() - i,
    {
        c.playlist.push(list[i].to_track());
        assert(c.playlist@.rows =~= rows_of(list@.subrange(0, i + 1)));
        i += 1;
    }
    assert(list@.subrange(0, i as int) =~= list@);
    sync_queue_to_playlist(c);
    unread_rows(c, 0)
}

/// What reading a row's file sends back, under the row's id: its tags where they
/// could be read, and its length where it could be told.
pub fn row_probed(id: u64, read: Option<&Track>, length: Option<u64>) -> (r: (
    Option<MetaResult>,
    Option<DurationResult>,
))
    ensures
        match (read, r.0) {
            (Some(t), Some(meta)) => meta.id == id && meta.title@ == t.title@ && meta.artist@
                == t.artist@ && meta.album_artist@ == t.album_artist@,
            (None, None) => true,
            _ => false,
        },
        r.1 == (match length {
            Some(duration) => Some(DurationResult { id, duration }),
            None => None,
        }),
{
    let meta = match read {
        Some(t) => Some(
            MetaResult {
                id,
                title: t.title.clone(),
                artist: t.artist.clone(),
                album_artist: t.album_artist.clone(),
            },
        ),
        None => None,
    };
    let found = match length {
        Some(duration) => Some(DurationResult { id, duration }),
        None => None,
    };
    (meta, found)
}

/// A saved playlist of the library.
pub struct SavedPlaylist {
    pub id: i64,
    pub name: String,
    pub path: String,
}

/// How many saved playlists there are; none while the library is closed.
pub fn sparkamp_ml_playlist_count(lists: Option<&Vec<SavedPlaylist>>) -> (r: usize)
    ensures
        r == (match lists {
            Some(list) => list@.len(),
            None => 0,
        }),
{
    match lists {
        Some(list) => list.len(),
        None => 0,
    }
}

/// The name of a saved playlist; `None` out of range or while the library is
/// closed.
pub fn sparkamp_ml_playlist_name(lists: Option<&Vec<SavedPlaylist>>, index: i32) -> (r: Option<String>)
    ensures
        match r {
            Some(s) => lists matches Some(list) && 0 <= index < list@.len() && s@
                == list@[index as int].name@ && !s@.contains('\0'),
            None => lists matches Some(list) ==> !(0 <= index < list@.len())
                || list@[index as int].name@.contains('\0'),
        },
{
    let list = match lists {
        Some(list) => list,
        None => return None,
    };
    if index < 0 {
        return None;
    }
    let i: usize = index as usize;
    if i < list.len() && fits_c(list[i].name.as_str()) {
        Some(list[i].name.clone())
    } else {
        None
    }
}

/// The number of a saved playlist; minus one out of range or while the library
/// is closed.
pub fn sparkamp_ml_playlist_id(lists: Option<&Vec<SavedPlaylist>>, index: i32) -> (r: i64)
    ensures
        r == (match lists {
            Some(list) if 0 <= index < list@.len() => list@[index as int].id,
            _ => -1i64,
        }),
{
    let list = match lists {
        Some(list) => list,
        None => return -1,
    };
    if index < 0 {
        return -1;
    }
    let i: usize = index as usize;
    if i < list.len() {
        list[i].id
    } else {
        -1
    }
}

/// The path of a saved playlist that was found by its number; `None` where none
/// was, or where the path cannot cross.
pub fn sparkamp_ml_playlist_path(found: Option<&SavedPlaylist>) -> (r: Option<String>)
    ensures
        match r {
            Some(s) => found matches Some(p) && s@ == p.path@ && !s@.contains('\0'),
            None => found matches Some(p) ==> p.path@.contains('\0'),
        },
{
    match found {
        Some(p) => if fits_c(p.path.as_str()) {
            Some(p.path.clone())
        } else {
            None
        },
        None => None,
    }
}

/// One where the file at a row is gone. A row on a mounted disc never is; what
/// the file system says counts for any other.
pub fn sparkamp_playlist_file_missing<B: AudioBackend>(
    ctx: Option<&SparkampCtx<B>>,
    index: i32,
    on_optical: bool,
    exists: bool,
) -> (r: i32)
    ensures
        r == (match ctx {
            Some(c) if playback::has_row(c.playlist@, index) && !on_optical && !exists => 1,
            _ => 0int,
        }),
{
    let c = match ctx {
        Some(c) => c,
        None => return 0,
    };
    if row_at(c, index).is_none() {
        return 0;
    }
    if on_optical || exists {
        0
    } else {
        1
    }
}

/// The folders to watch after a change of the folders; nothing for a null
/// context.
pub fn sparkamp_ml_watch_rebuild<B: AudioBackend>(
    ctx: Option<&SparkampCtx<B>>,
    folders: Option<&Vec<Folder>>,
    kept: &Vec<Option<bool>>,
) -> (r: Option<Vec<(String, bool)>>)
    requires
        folders matches Some(list) ==> kept@.len() == list@.len(),
    ensures
        match r {
            Some(out) => {
                &&& ctx matches Some(c) && c.config.media_library.watch_folders
                &&& folders matches Some(list) && list@.len() > 0 && out@.len() == list@.len() && forall|
                    k: int,
                |
                    0 <= k < list@.len() ==> (#[trigger] out@[k]).0@ == list@[k].path@ && out@[k].1 == (
                    kept@[k] != Some(false))
            },
            None => {
                ||| ctx is None
                ||| ctx matches Some(c) && !c.config.media_library.watch_folders
                ||| folders is None
                ||| folders matches Some(list) && list@.len() == 0
            },
        },
{
    match ctx {
        Some(c) => rebuild_watcher(c, folders, kept),
        None => None,
    }
}

/// The path that the library is asked about; nothing while it is closed.
fn asked_path(open: bool, path: &CText) -> (r: Option<String>)
    ensures
        match r {
            Some(p) => open && (path matches CText::Text(t) && p@ == t@),
            None => !open || !(path is Text),
        },
{
    match path {
        CText::Text(t) => if open {
            Some(t.clone())
        } else {
            None
        },
        _ => None,
    }
}

/// The path whose play is to be recorded.
pub fn sparkamp_ml_record_play(open: bool, path: &CText) -> (r: Option<String>)
    ensures
        match r {
            Some(p) => open && (path matches CText::Text(t) && p@ == t@),
            None => !open || !(path is Text),
        },
{
    asked_path(open, path)
}

/// The path that is to be read again.
pub fn sparkamp_ml_rescan_track(open: bool, path: &CText) -> (r: Option<String>)
    ensures
        match r {
            Some(p) => open && (path matches CText::Text(t) && p@ == t@),
            None => !open || !(path is Text),
        },
{
    asked_path(open, path)
}

/// The playlist that is to be renamed, with its new name.
pub fn sparkamp_ml_rename_playlist(open: bool, playlist_id: i64, new_name: &CText) -> (r: Option<
    (i64, String),
>)
    ensures
        match r {
            Some((id, name)) => open && id == playlist_id && (new_name matches CText::Text(t)
                && name@ == t@),
            None => !open || !(new_name is Text),
        },
{
    match asked_path(open, new_name) {
        Some(name) => Some((playlist_id, name)),
        None => None,
    }
}

/// The tracks that a playlist is to hold instead; nothing without a list.
pub fn sparkamp_ml_save_playlist(open: bool, playlist_id: i64, track_ids: Option<&Vec<i64>>) -> (r:
    Option<(i64, Vec<i64>)>)
    ensures
        match r {
            Some((id, ids)) => open && id == playlist_id && (track_ids matches Some(list) && ids@
                == list@),
            None => !open || track_ids is None,
        },
{
    match track_ids {
        Some(list) => if open {
            let ids = list.clone();
            assert(ids@ =~= list@);
            Some((playlist_id, ids))
        } else {
            None
        },
        None => None,
    }
}

/// One where a playlist lies in the directory of managed playlists, as the
/// library says; zero while it is closed.
pub fn sparkamp_ml_playlist_is_managed(open: bool, managed: bool) -> (r: i32)
    ensures
        r == one_if(open && managed),
{
    flag(open && managed)
}

/// The file that is to be taken out of the library; nothing while it is closed.
pub fn sparkamp_ml_remove_track(open: bool, track_id: i64) -> (r: Option<i64>)
    ensures
        r == (if open {
            Some(track_id)
        } else {
            None
        }),
{
    if open {
        Some(track_id)
    } else {
        None
    }
}

/// The playlist that is to be taken out of the library; nothing while it is
/// closed.
pub fn sparkamp_ml_delete_playlist(open: bool, playlist_id: i64) -> (r: Option<i64>)
    ensures
        r == (if open {
            Some(playlist_id)
        } else {
            None
        }),
{
    if open {
        Some(playlist_id)
    } else {
        None
    }
}

/// What is not known crosses as nought, and what is known as it is; a length that does not
/// fit crosses as the longest that does.
pub proof fn law_what_is_not_known_crosses_as_nought(n: Option<i64>, length: Option<u64>, b: bool)
    ensures
        n matches Some(v) ==> number(n) == v,
        n is None ==> number(n) == 0,
        length is None ==> length_out(length) == 0,
        (length matches Some(ns) && ns <= 9_223_372_036_854_775_807) ==> length_out(length)
            == length.unwrap(),
        (length matches Some(ns) && ns > 9_223_372_036_854_775_807) ==> length_out(length)
            == 9_223_372_036_854_775_807,
        one_if(b) == 1 <==> b,
        one_if(b) == 0 <==> !b,
{
}

/// A track crosses with each of its data in its own place, and its loudness only where it
/// was analysed.
pub proof fn law_a_track_crosses_with_its_own_data(out: SparkampLibTrack, t: LibTrack, facts: FileFacts)
    requires
        out.stands_for(&t, facts),
    ensures
        out.id == t.id,
        out.path@ == buffer::closed_text(t.path@, 512),
        t.title matches Some(s) ==> out.title@ == buffer::closed_text(s@, 256),
        t.title is None ==> out.title@ == buffer::closed_text(t.filename@, 256),
        t.artist matches Some(s) ==> out.artist@ == buffer::closed_text(s@, 256),
        t.album matches Some(s) ==> out.album@ == buffer::closed_text(s@, 256),
        t.album_artist matches Some(s) ==> out.album_artist@ == buffer::closed_text(s@, 256),
        t.genre matches Some(s) ==> out.genre@ == buffer::closed_text(s@, 64),
        t.composer matches Some(s) ==> out.composer@ == buffer::closed_text(s@, 256),
        t.comment matches Some(s) ==> out.comment@ == buffer::closed_text(s@, 512),
        (t.year matches Some(y) && 0 <= y <= 9999) ==> out.year == t.year.unwrap(),
        (t.track_num matches Some(n) && 0 <= n <= 9999) ==> out.track_num == t.track_num.unwrap(),
        (t.disc_num matches Some(n) && 0 <= n <= 9999) ==> out.disc_num == t.disc_num.unwrap(),
        (t.file_size matches Some(n)) ==> out.file_size == t.file_size.unwrap(),
        out.read_only == 1 <==> facts.read_only,
        out.file_missing == 1 <==> facts.missing,
        out.has_art == 1 <==> t.artwork_path is Some,
        out.scanned == 1 <==> t.last_scanned is Some,
        out.rg_analyzed == 1 <==> t.rg_track_gain is Some,
        t.rg_track_gain matches Some(g) ==> out.rg_track_gain == g,
        (t.rg_track_gain is Some && t.rg_album_gain is Some) ==> out.rg_album_gain
            == t.rg_album_gain.unwrap(),
        (t.rg_track_gain is Some && t.rg_track_peak is Some) ==> out.rg_track_peak
            == t.rg_track_peak.unwrap(),
        (t.rg_track_gain is Some && t.rg_album_peak is Some) ==> out.rg_album_peak
            == t.rg_album_peak.unwrap(),
        (t.bitrate matches Some(n) && 0 <= n <= 9_999_999) ==> out.bitrate == t.bitrate.unwrap(),
        (t.sample_rate matches Some(n) && 0 <= n <= 9_999_999) ==> out.sample_rate
            == t.sample_rate.unwrap(),
        (t.channels matches Some(n) && 0 <= n <= 9999) ==> out.channels == t.channels.unwrap(),
        t.bpm matches Some(s) ==> out.bpm@ == buffer::closed_text(s@, 32),
        t.artwork_path matches Some(s) ==> out.artwork_path@ == buffer::closed_text(s@, 512),
        t.last_played matches Some(s) ==> out.last_played@ == buffer::closed_text(s@, 32),
        t.added_at matches Some(s) ==> out.added_at@ == buffer::closed_text(s@, 32),
        t.file_mtime matches Some(s) ==> out.file_mtime@ == buffer::closed_text(s@, 32),
        0 <= t.play_count <= 9_999_999 ==> out.play_count == t.play_count,
        t.artist is None ==> out.artist@ == buffer::closed_text(Seq::empty(), 256),
        t.album is None ==> out.album@ == buffer::closed_text(Seq::empty(), 256),
        t.rg_track_gain is None ==> out.rg_track_gain == 0 && out.rg_album_gain == 0
            && out.rg_track_peak == 0 && out.rg_album_peak == 0,
{
}

/// The numbers by which albums are sorted: one by album, two by year, any other by artist.
pub proof fn law_albums_are_sorted_by_their_number(sort: u32)
    ensures
        sort == 1 ==> album_sort(sort) == AlbumSort::Album,
        sort == 2 ==> album_sort(sort) == AlbumSort::Year,
        sort != 1 && sort != 2 ==> album_sort(sort) == AlbumSort::Artist,
{
}

/// The number that answers for a path is that of the first folder with it, and none does
/// where no folder has it.
pub proof fn law_a_folder_answers_for_its_path(
    folders: Seq<Folder>,
    path: Seq<char>,
    id: Option<i64>,
    k: int,
)
    requires
        answers(folders, path, id),
    ensures
        id is None ==> (0 <= k < folders.len() ==> folders[k].path@ != path),
        (0 <= k < folders.len() && folders[k].path@ == path && forall|j: int|
            0 <= j < k ==> (#[trigger] folders[j]).path@ != path) ==> id == Some(folders[k].id),
{
}

/// A change that was seen crosses by its number and with its own path: nought for a file that
/// came or changed, one for one that went, two for a playlist.
pub proof fn law_a_change_crosses_with_its_path(p: String)
    ensures
        watch_kind(WatchAction::Upsert(p)) == 0,
        watch_kind(WatchAction::Remove(p)) == 1,
        watch_kind(WatchAction::PlaylistUpsert(p)) == 2,
        watch_path(WatchAction::Upsert(p)) == p@,
        watch_path(WatchAction::Remove(p)) == p@,
        watch_path(WatchAction::PlaylistUpsert(p)) == p@,
{
}

/// Adding a folder registers it, notes its files and then reads them, each only where the
/// step before succeeded, and of the folder that was asked for.
pub proof fn law_a_folder_is_added_step_by_step(
    e: FolderEvent,
    remove_missing: bool,
    s: FolderStep,
)
    requires
        folder_step(e, remove_missing, s),
    ensures
        (e matches FolderEvent::Asked { open, wanted } && open && wanted is Text) ==> (
        s matches FolderStep::Register { path: q } && q@ == text::c_given(e->wanted)),
        (e matches FolderEvent::Asked { open, wanted } && (!open || !(wanted is Text))) ==> s is Stop,
        (e matches FolderEvent::Registered { number: n, path } && n is Some) ==> (
        s matches FolderStep::NoteFiles { id, path: q, remove_missing: gone } && Some(id)
            == e->Registered_number && q@ == e->path@ && gone == remove_missing),
        (e matches FolderEvent::Registered { number: n, path } && n is None) ==> s is Stop,
        (e matches FolderEvent::Noted { id, ok } && ok) ==> (s matches FolderStep::ReadFiles { id: m }
            && m == e->id),
        (e matches FolderEvent::Noted { id, ok } && !ok) ==> s is Stop,
{
}

/// A rescan walks every folder in its turn, then reads, and then compacts where that was set
/// and the reading went well; asked to stop, it walks no further folder.
pub proof fn law_a_rescan_walks_then_reads_then_compacts(
    n: usize,
    folders: int,
    plan: RescanPlan,
    cancel: bool,
)
    requires
        0 <= folders,
    ensures
        n < folders && !cancel ==> rescan_step(RescanEvent::Walked(n), folders, plan, cancel)
            == RescanStep::Walk(n),
        n >= folders || cancel ==> rescan_step(RescanEvent::Walked(n), folders, plan, cancel)
            == RescanStep::ReadAll,
        plan.compact_after ==> rescan_step(RescanEvent::ReadAll(true), folders, plan, cancel)
            == RescanStep::Compact,
        !plan.compact_after ==> rescan_step(RescanEvent::ReadAll(true), folders, plan, cancel)
            == RescanStep::Done,
        rescan_step(RescanEvent::ReadAll(false), folders, plan, cancel) == RescanStep::Done,
        rescan_step(RescanEvent::Compacted, folders, plan, cancel) == RescanStep::Done,
{
}

/// What is asked of the library is what was typed, by the column that was chosen and in the
/// direction that was; without words it is everything, and without a column in no order.
pub proof fn law_the_library_is_asked_what_was_typed(
    q: TrackQuery,
    query: Seq<char>,
    column: Seq<char>,
    descending: bool,
)
    requires
        asks(q, query, column, descending),
    ensures
        query.len() == 0 && column.len() == 0 ==> q is All,
        query.len() > 0 && column.len() == 0 ==> (q matches TrackQuery::Search(s) && s@ == query),
        query.len() == 0 && column.len() > 0 ==> (
        q matches TrackQuery::AllSorted { column: c, descending: d } && c@ == column && d
            == descending),
        query.len() > 0 && column.len() > 0 ==> (
        q matches TrackQuery::SearchSorted { query: s, column: c, descending: d } && s@ == query && c@
            == column && d == descending),
{
}

/// A page begins where it was asked for and holds as many as were asked for, as far as there
/// are so many; past the end it is empty, and pages that follow each other leave none out.
pub proof fn law_pages_follow_each_other(len: nat, offset: i32, limit: i32)
    requires
        0 <= offset,
        0 < limit,
        offset + limit <= i32::MAX,
    ensures
        0 <= page_start(len, offset) <= page_end(len, offset, limit) <= len,
        offset <= len ==> page_start(len, offset) == offset,
        offset + limit <= len ==> page_end(len, offset, limit) - page_start(len, offset) == limit,
        offset >= len ==> page_end(len, offset, limit) == page_start(len, offset),
        page_end(len, offset, limit) == page_start(len, (offset + limit) as i32),
        page_start(len, 0) == 0,
{
}

/// As many fit as there are and as were asked for, whichever is fewer, and none where none
/// were.
pub proof fn law_as_many_fit_as_were_asked_for(len: nat, limit: i32)
    ensures
        0 <= fitting(len, limit) <= len,
        limit > 0 ==> fitting(len, limit) <= limit,
        limit <= 0 ==> fitting(len, limit) == 0,
        limit > 0 && fitting(len, limit) < len ==> fitting(len, limit) == limit,
{
}

/// The track of an id is the first that has it, and the tracks that are named by ids come in
/// the order of the ids; an id that names none is left out.
pub proof fn law_tracks_come_in_the_order_they_were_named(
    ids: Seq<i64>,
    id: i64,
    found: Seq<LibTrack>,
)
    ensures
        match first_with(found, id) {
            Some(i) => {
                &&& 0 <= i < found.len()
                &&& found[i].id == id
                &&& forall|k: int| 0 <= k < i ==> (#[trigger] found[k]).id != id
                &&& named_files(ids.push(id), found) == named_files(ids, found).push(found[i].as_row())
            },
            None => {
                &&& forall|k: int| 0 <= k < found.len() ==> (#[trigger] found[k]).id != id
                &&& named_files(ids.push(id), found) == named_files(ids, found)
            },
        },
        named_files(Seq::empty(), found).len() == 0,
{
    lemma_first_is_first(found, id);
    assert(ids.push(id).drop_last() =~= ids);
}

proof fn lemma_first_is_first(found: Seq<LibTrack>, id: i64)
    ensures
        match first_with(found, id) {
            Some(i) => {
                &&& 0 <= i < found.len()
                &&& found[i].id == id
                &&& forall|k: int| 0 <= k < i ==> (#[trigger] found[k]).id != id
            },
            None => forall|k: int| 0 <= k < found.len() ==> (#[trigger] found[k]).id != id,
        },
    decreases found.len(),
{
    if found.len() > 0 {
        let head = found.drop_last();
        lemma_first_is_first(head, id);
        assert forall|k: int| 0 <= k < head.len() implies (#[trigger] found[k]).id == head[k].id by {}
        match first_with(head, id) {
            Some(i) => {
                assert(found[i].id == head[i].id);
            },
            None => {
                assert(found.last() == found[found.len() - 1]);
            },
        }
    }
}

/// The rows whose length is still to be found out are those without one, each with its id
/// and its path, in their order.
pub proof fn law_rows_without_a_length_are_probed(rows: Seq<model::TrackView>, from: int, to: int)
    requires
        0 <= from <= to < rows.len(),
    ensures
        unread(rows, from, from).len() == 0,
        rows[to].duration is None ==> unread(rows, from, to + 1) == unread(rows, from, to).push(
            (rows[to].id, rows[to].path),
        ),
        rows[to].duration is Some ==> unread(rows, from, to + 1) == unread(rows, from, to),
{
}

/// Tracks of the library become rows in their order, each with its own path and tags.
pub proof fn law_tracks_become_rows_in_their_order(tracks: Seq<LibTrack>, i: int)
    requires
        0 <= i < tracks.len(),
    ensures
        rows_of(tracks).len() == tracks.len(),
        rows_of(tracks)[i].path == tracks[i].path@,
        rows_of(tracks)[i].title == tracks[i].shown_title(),
        tracks[i].artist matches Some(a) ==> rows_of(tracks)[i].artist == a@,
        rows_of(tracks)[i].duration == tracks[i].length,
{
}

/// What is to be probed is named by its id and its path, in its place.
pub proof fn law_probes_are_named_by_id_and_path(list: Seq<(u64, String)>, i: int)
    requires
        0 <= i < list.len(),
    ensures
        probe_views(list).len() == list.len(),
        probe_views(list)[i].0 == list[i].0,
        probe_views(list)[i].1 == list[i].1@,
{
}

} // verus!
