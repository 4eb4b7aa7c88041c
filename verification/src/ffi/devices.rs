//! Portable devices: who they are, what is on them, and what is copied to them.

use crate::ffi::media_library as ffi_lib;
use crate::ffi::media_library::or_zero;
use crate::json;
use crate::json::given_strings;
use crate::media_library;
use crate::media_library::{owned_text, LibTrack};
use crate::model;
use crate::model::last_component_of;
use crate::text;
use crate::text::{same, to_lower, trim, CText};
use vstd::prelude::*;

verus! {

/// A volume as it was found.
pub struct VolumeIn {
    pub mount_path: String,
    pub label: String,
    pub fs_type: String,
    pub bsd_name: String,
    pub total_bytes: u64,
    pub free_bytes: u64,
    pub read_only: bool,
    pub ejectable: bool,
    pub volume_uuid: Option<String>,
}

/// What a device is reached through.
#[derive(Debug, Clone, Copy, PartialEq, Eq, Structural)]
pub enum DeviceBackend {
    Udisks,
    Mtp,
}

/// A device.
pub struct Device {
    /// Empty for one that cannot be told from another.
    pub id: String,
    pub label: String,
    pub mount_path: String,
    pub fs_type: String,
    pub total_bytes: u64,
    pub free_bytes: u64,
    pub read_only: bool,
    pub ejectable: bool,
    pub backend_id: String,
    pub backend: DeviceBackend,
    pub fs_visible: bool,
}

/// What is to be done about the marker file of a volume.
#[derive(Debug, Clone, Copy, PartialEq, Eq, Structural)]
pub enum MarkerWork {
    /// Nothing: the volume has an id of its own.
    Leave,
    /// It is to be read, and made where there is none.
    Ensure,
    /// It is to be read.
    Read,
}

/// The id that a volume has of its own.
pub open spec fn own_id(v: &VolumeIn) -> Option<Seq<char>> {
    match v.volume_uuid {
        Some(uuid) if uuid@.len() > 0 => Some(uuid@),
        _ => None,
    }
}

/// What is to be done about the marker file of a volume: nothing where it has an
/// id of its own, and nothing is written to one that is read-only.
pub open spec fn marker_needed(v: &VolumeIn) -> MarkerWork {
    if own_id(v) is Some {
        MarkerWork::Leave
    } else if v.read_only {
        MarkerWork::Read
    } else {
        MarkerWork::Ensure
    }
}

/// What is to be done about the marker file of a volume.
pub fn marker_work(v: &VolumeIn) -> (r: MarkerWork)
    ensures
        r == marker_needed(v),
{
    let own = match &v.volume_uuid {
        Some(uuid) => uuid.as_str().unicode_len() > 0,
        None => false,
    };
    if own {
        MarkerWork::Leave
    } else if v.read_only {
        MarkerWork::Read
    } else {
        MarkerWork::Ensure
    }
}

/// What a device is known by: the volume's own id, else what its marker file
/// says, else nothing.
pub open spec fn identity(v: &VolumeIn, marker: Option<String>) -> Seq<char> {
    match own_id(v) {
        Some(uuid) => uuid,
        None => media_library::text_of(marker),
    }
}

impl Device {
    /// What a volume is as a device.
    pub open spec fn stands_for(&self, v: &VolumeIn, marker: Option<String>) -> bool {
        &&& self.id@ == identity(v, marker)
        &&& self.label@ == v.label@
        &&& self.mount_path@ == v.mount_path@
        &&& self.fs_type@ == v.fs_type@
        &&& self.total_bytes == v.total_bytes
        &&& self.free_bytes == v.free_bytes
        &&& self.read_only == v.read_only
        &&& self.ejectable == v.ejectable
        &&& self.backend_id@ == v.bsd_name@
        &&& self.backend == DeviceBackend::Udisks
        &&& self.fs_visible
    }

    /// What a volume is as a device. `marker` is what its marker file says.
    pub fn from_volume(v: &VolumeIn, marker: &Option<String>) -> (r: Device)
        ensures
            r.stands_for(v, *marker),
    {
        let id = match &v.volume_uuid {
            Some(uuid) => if uuid.as_str().unicode_len() > 0 {
                uuid.clone()
            } else {
                owned_text(marker)
            },
            None => owned_text(marker),
        };
        Device {
            id,
            label: v.label.clone(),
            mount_path: v.mount_path.clone(),
            fs_type: v.fs_type.clone(),
            total_bytes: v.total_bytes,
            free_bytes: v.free_bytes,
            read_only: v.read_only,
            ejectable: v.ejectable,
            backend_id: v.bsd_name.clone(),
            backend: DeviceBackend::Udisks,
            fs_visible: true,
        }
    }
}

/// The devices that volumes are, in their order; none where the volumes could
/// not be read. `markers` is what the marker file of each says.
pub fn sparkamp_devices_refresh(volumes: Option<&Vec<VolumeIn>>, markers: &Vec<Option<String>>) -> (r:
    Vec<Device>)
    requires
        volumes matches Some(list) ==> markers@.len() == list@.len(),
    ensures
        match volumes {
            Some(list) => r@.len() == list@.len() && forall|k: int|
                0 <= k < r@.len() ==> (#[trigger] r@[k]).stands_for(&list@[k], markers@[k]),
            None => r@.len() == 0,
        },
{
    let mut out: Vec<Device> = Vec::new();
    let list = match volumes {
        Some(list) => list,
        None => return out,
    };
    let mut i: usize = 0;
    while i < list.len()
        invariant
            i <= list@.len(),
            markers@.len() == list@.len(),
            out@.len() == i,
            forall|k: int| 0 <= k < i ==> (#[trigger] out@[k]).stands_for(&list@[k], markers@[k]),
        decreases list@.len() - i,
    {
        out.push(Device::from_volume(&list[i], &markers[i]));
        i += 1;
    }
    out
}

/// A volume keeps its id however it is mounted and whatever its marker file says,
/// as long as it has one of its own.
pub proof fn law_own_id_wins(v: VolumeIn, w: VolumeIn, a: Option<String>, b: Option<String>)
    requires
        v.volume_uuid == w.volume_uuid,
        own_id(&v) is Some,
    ensures
        identity(&v, a) == identity(&w, b),
        marker_needed(&v) == MarkerWork::Leave,
{
}

/// The extension of a playlist format: 1 is m3u, any other m3u8.
pub open spec fn format_ending(format: i32) -> Seq<char> {
    if format == 1 {
        "m3u"@
    } else {
        "m3u8"@
    }
}

/// The extension of a playlist format.
pub fn ext_for_format(format: i32) -> (r: &'static str)
    ensures
        r@ == format_ending(format),
{
    if format == 1 {
        "m3u"
    } else {
        "m3u8"
    }
}

/// A path with its backslashes as slashes.
pub open spec fn slashed(path: Seq<char>) -> Seq<char> {
    path.map_values(
        |c: char|
            if c == '\\' {
                '/'
            } else {
                c
            },
    )
}

/// A path with its backslashes as slashes.
pub fn with_slashes(path: &str) -> (r: String)
    ensures
        r@ == slashed(path@),
{
    let n: usize = path.unicode_len();
    let mut out = String::new();
    let mut i: usize = 0;
    while i < n
        invariant
            i <= n,
            n == path@.len(),
            out@ =~= slashed(path@.subrange(0, i as int)),
        decreases n - i,
    {
        let c: char = path.get_char(i);
        if c == '\\' {
            out.push('/');
        } else {
            out.push(c);
        }
        i += 1;
    }
    assert(path@.subrange(0, i as int) =~= path@);
    out
}

/// A file of the library and the one on the device that goes with it.
pub struct SyncPair {
    pub device_relpath: String,
    pub library_path: String,
}

/// Whether a pair is of a path on the device, however its slashes lean.
pub open spec fn is_pair_of(p: SyncPair, rel: Seq<char>) -> bool {
    slashed(p.device_relpath@) == slashed(rel)
}

/// The first pair of a path on the device.
pub open spec fn first_pair(pairs: Seq<SyncPair>, rel: Seq<char>, i: int) -> bool {
    &&& 0 <= i < pairs.len()
    &&& is_pair_of(pairs[i], rel)
    &&& forall|k: int| 0 <= k < i ==> !is_pair_of(#[trigger] pairs[k], rel)
}

/// The last pair of a path on the device.
pub open spec fn last_pair(pairs: Seq<SyncPair>, rel: Seq<char>, i: int) -> bool {
    &&& 0 <= i < pairs.len()
    &&& is_pair_of(pairs[i], rel)
    &&& forall|k: int| i < k < pairs.len() ==> !is_pair_of(#[trigger] pairs[k], rel)
}

/// No pair is of a path on the device.
pub open spec fn unpaired(pairs: Seq<SyncPair>, rel: Seq<char>) -> bool {
    forall|k: int| 0 <= k < pairs.len() ==> !is_pair_of(#[trigger] pairs[k], rel)
}

/// What the last pair of a path on the device names.
pub open spec fn last_origin(pairs: Seq<SyncPair>, rel: Seq<char>, from: Option<String>) -> bool {
    match from {
        Some(path) => exists|i: int| #[trigger]
            last_pair(pairs, rel, i) && path@ == pairs[i].library_path@,
        None => unpaired(pairs, rel),
    }
}

/// What the first pair of a path on the device names.
pub open spec fn first_origin(pairs: Seq<SyncPair>, rel: Seq<char>, from: Option<String>) -> bool {
    match from {
        Some(path) => exists|i: int| #[trigger]
            first_pair(pairs, rel, i) && path@ == pairs[i].library_path@,
        None => unpaired(pairs, rel),
    }
}

/// Where a file on the device was synced from: its last pair says. `rel` is its
/// path below the mount point, `None` for one that is not below it.
pub fn synced_from(pairs: &Vec<SyncPair>, rel: &Option<String>) -> (r: Option<String>)
    ensures
        match rel {
            Some(path) => last_origin(pairs@, path@, r),
            None => r is None,
        },
{
    let path = match rel {
        Some(path) => path,
        None => return None,
    };
    let want = with_slashes(path.as_str());
    let mut i: usize = pairs.len();
    while i > 0
        invariant
            i <= pairs@.len(),
            *rel == Some(*path),
            want@ == slashed(path@),
            forall|k: int| i <= k < pairs@.len() ==> !is_pair_of(#[trigger] pairs@[k], path@),
        decreases i,
    {
        i -= 1;
        let have = with_slashes(pairs[i].device_relpath.as_str());
        if same(have.as_str(), want.as_str()) {
            assert(last_pair(pairs@, path@, i as int));
            return Some(pairs[i].library_path.clone());
        }
    }
    None
}

/// A file on a device as a table shows it.
pub struct DeviceTrackDto {
    pub path: String,
    pub title: String,
    pub artist: String,
    pub album: String,
    pub album_artist: String,
    pub genre: String,
    pub composer: String,
    pub comment: String,
    pub bpm: String,
    pub year: i64,
    pub track_num: i64,
    pub disc_num: i64,
    /// In nanoseconds.
    pub length: u64,
    pub bitrate: i64,
    pub play_count: i64,
    pub last_played: String,
    pub has_art: bool,
    pub synced_from: Option<String>,
}

impl DeviceTrackDto {
    /// What a table shows of a file.
    pub open spec fn stands_for(&self, t: &LibTrack) -> bool {
        &&& self.path@ == t.path@
        &&& self.title@ == t.shown_title()
        &&& self.artist@ == media_library::text_of(t.artist)
        &&& self.album@ == media_library::text_of(t.album)
        &&& self.album_artist@ == media_library::text_of(t.album_artist)
        &&& self.genre@ == media_library::text_of(t.genre)
        &&& self.composer@ == media_library::text_of(t.composer)
        &&& self.comment@ == media_library::text_of(t.comment)
        &&& self.bpm@ == media_library::text_of(t.bpm)
        &&& self.year == ffi_lib::number(t.year)
        &&& self.track_num == ffi_lib::number(t.track_num)
        &&& self.disc_num == ffi_lib::number(t.disc_num)
        &&& self.length == (match t.length {
            Some(ns) => ns,
            None => 0,
        })
        &&& self.bitrate == ffi_lib::number(t.bitrate)
        &&& self.play_count == t.play_count
        &&& self.last_played@ == media_library::text_of(t.last_played)
        &&& self.has_art == (t.artwork_path is Some)
    }

    /// What a table shows of a file.
    pub fn from_lib_track(t: &LibTrack, synced_from: Option<String>) -> (r: DeviceTrackDto)
        ensures
            r.stands_for(t),
            r.synced_from == synced_from,
    {
        DeviceTrackDto {
            path: t.path.clone(),
            title: t.title_shown(),
            artist: owned_text(&t.artist),
            album: owned_text(&t.album),
            album_artist: owned_text(&t.album_artist),
            genre: owned_text(&t.genre),
            composer: owned_text(&t.composer),
            comment: owned_text(&t.comment),
            bpm: owned_text(&t.bpm),
            year: or_zero(t.year),
            track_num: or_zero(t.track_num),
            disc_num: or_zero(t.disc_num),
            length: match t.length {
                Some(ns) => ns,
                None => 0,
            },
            bitrate: or_zero(t.bitrate),
            play_count: t.play_count,
            last_played: owned_text(&t.last_played),
            has_art: t.artwork_path.is_some(),
            synced_from,
        }
    }
}

/// A file that was found on a device.
pub struct FoundFile {
    pub track: LibTrack,
    /// Its path below the mount point.
    pub relpath: Option<String>,
}

/// Where a shown file was synced from, as the pairs say.
pub open spec fn origin_shown(pairs: Seq<SyncPair>, f: FoundFile, from: Option<String>) -> bool {
    match f.relpath {
        Some(rel) => last_origin(pairs, rel@, from),
        None => from is None,
    }
}

/// The files on a device as a table shows them; nothing without a device.
pub fn sparkamp_device_browse(
    device: Option<&Device>,
    pairs: &Vec<SyncPair>,
    files: &Vec<FoundFile>,
) -> (r: Option<Vec<DeviceTrackDto>>)
    ensures
        match r {
            Some(out) => device is Some && out@.len() == files@.len() && forall|k: int|
                0 <= k < out@.len() ==> (#[trigger] out@[k]).stands_for(&files@[k].track)
                    && origin_shown(pairs@, files@[k], out@[k].synced_from),
            None => device is None,
        },
{
    if device.is_none() {
        return None;
    }
    let mut out: Vec<DeviceTrackDto> = Vec::new();
    let mut i: usize = 0;
    while i < files.len()
        invariant
            i <= files@.len(),
            out@.len() == i,
            forall|k: int|
                0 <= k < i ==> (#[trigger] out@[k]).stands_for(&files@[k].track) && origin_shown(
                    pairs@,
                    files@[k],
                    out@[k].synced_from,
                ),
        decreases files@.len() - i,
    {
        let from = synced_from(pairs, &files[i].relpath);
        out.push(DeviceTrackDto::from_lib_track(&files[i].track, from));
        i += 1;
    }
    Some(out)
}

/// What came of one file that was to be copied to a device.
#[derive(Debug, Clone, Copy, PartialEq, Eq, Structural)]
pub enum CopyOutcome {
    /// There is no such file.
    Missing,
    /// The device already has it.
    Present,
    /// It was copied; its size in bytes.
    Copied(u64),
    /// It could not be copied.
    Failed,
}

/// What came of the files that were to be copied to a device.
#[derive(Debug, Clone, Copy, PartialEq, Eq, Structural)]
pub struct CopyResult {
    pub copied: usize,
    pub skipped: usize,
    pub bytes: u64,
}

/// How many files were copied.
pub open spec fn copies(list: Seq<CopyOutcome>) -> nat
    decreases list.len(),
{
    if list.len() == 0 {
        0
    } else {
        copies(list.drop_last()) + if list.last() is Copied {
            1nat
        } else {
            0
        }
    }
}

/// How many bytes were copied.
pub open spec fn bytes_copied(list: Seq<CopyOutcome>) -> nat
    decreases list.len(),
{
    if list.len() == 0 {
        0
    } else {
        bytes_copied(list.drop_last()) + match list.last() {
            CopyOutcome::Copied(n) => n as nat,
            _ => 0,
        }
    }
}

/// What was learnt of a file that is to be copied to a device.
#[derive(Debug, Clone, Copy, PartialEq, Eq, Structural)]
pub enum CopyEvent {
    /// It was looked for, here and on the device.
    Looked { exists: bool, present: bool },
    /// It was copied; its size in bytes.
    Copied(u64),
    /// It could not be copied.
    Failed,
}

/// What to do next about a file that is to be copied to a device.
#[derive(Debug, Clone, Copy, PartialEq, Eq, Structural)]
pub enum CopyAction {
    /// Copy it.
    Copy,
    /// Record it as a pair, at once, and go on to the next file.
    Record,
    /// Go on to the next file.
    Next,
}

/// How one event moves a copy on: a file that is not there is passed over; one
/// that the device already has is passed over too, and recorded as a pair so that
/// it syncs; any other is copied, and counted and recorded once that is done.
pub open spec fn copy_moved(
    done: CopyResult,
    event: CopyEvent,
    after: CopyResult,
    action: CopyAction,
) -> bool {
    match event {
        CopyEvent::Looked { exists: true, present: false } => {
            &&& after == done
            &&& action == CopyAction::Copy
        },
        CopyEvent::Looked { exists, .. } => {
            &&& after.skipped == done.skipped + 1
            &&& after == (CopyResult { skipped: after.skipped, ..done })
            &&& action == if exists {
                CopyAction::Record
            } else {
                CopyAction::Next
            }
        },
        CopyEvent::Copied(n) => {
            &&& after.copied == done.copied + 1
            &&& after.bytes == done.bytes + n
            &&& after.skipped == done.skipped
            &&& action == CopyAction::Record
        },
        CopyEvent::Failed => {
            &&& after.skipped == done.skipped + 1
            &&& after == (CopyResult { skipped: after.skipped, ..done })
            &&& action == CopyAction::Next
        },
    }
}

/// How one event moves a copy on, and what it asks for.
pub fn copy_step(done: CopyResult, event: CopyEvent) -> (r: (CopyResult, CopyAction))
    requires
        done.copied < usize::MAX,
        done.skipped < usize::MAX,
        event matches CopyEvent::Copied(n) ==> done.bytes + n <= u64::MAX,
    ensures
        copy_moved(done, event, r.0, r.1),
{
    let passed = CopyResult { skipped: done.skipped + 1, ..done };
    match event {
        CopyEvent::Looked { exists, present } => if !exists {
            (passed, CopyAction::Next)
        } else if present {
            (passed, CopyAction::Record)
        } else {
            (done, CopyAction::Copy)
        },
        CopyEvent::Copied(n) => (
            CopyResult { copied: done.copied + 1, bytes: done.bytes + n, skipped: done.skipped },
            CopyAction::Record,
        ),
        CopyEvent::Failed => (passed, CopyAction::Next),
    }
}

proof fn lemma_bytes_grow(list: Seq<CopyOutcome>, n: int)
    requires
        0 <= n <= list.len(),
    ensures
        bytes_copied(list.subrange(0, n)) <= bytes_copied(list),
        copies(list.subrange(0, n)) <= n,
    decreases list.len() - n,
{
    if n < list.len() {
        lemma_bytes_grow(list, n + 1);
        assert(list.subrange(0, n + 1).drop_last() =~= list.subrange(0, n));
    } else {
        assert(list.subrange(0, n) =~= list);
    }
    lemma_copies(list.subrange(0, n));
}

proof fn lemma_copies(list: Seq<CopyOutcome>)
    ensures
        copies(list) <= list.len(),
    decreases list.len(),
{
    if list.len() > 0 {
        lemma_copies(list.drop_last());
    }
}

/// What came of the files that were to be copied: each one was either copied or
/// passed over.
pub fn sparkamp_device_copy(outcomes: &Vec<CopyOutcome>) -> (r: CopyResult)
    requires
        bytes_copied(outcomes@) <= u64::MAX,
    ensures
        r.copied == copies(outcomes@),
        r.copied + r.skipped == outcomes@.len(),
        r.bytes == bytes_copied(outcomes@),
{
    let mut done = CopyResult { copied: 0, skipped: 0, bytes: 0 };
    let mut i: usize = 0;
    assert(outcomes@.subrange(0, 0) =~= Seq::empty());
    while i < outcomes.len()
        invariant
            i <= outcomes@.len(),
            bytes_copied(outcomes@) <= u64::MAX,
            done.copied + done.skipped == i,
            done.copied == copies(outcomes@.subrange(0, i as int)),
            done.bytes == bytes_copied(outcomes@.subrange(0, i as int)),
        decreases outcomes@.len() - i,
    {
        proof {
            lemma_bytes_grow(outcomes@, i + 1);
            assert(outcomes@.subrange(0, i + 1).drop_last() =~= outcomes@.subrange(0, i as int));
            assert(outcomes@.subrange(0, i + 1).last() == outcomes@[i as int]);
        }
        let outcome = outcomes[i];
        let (looked, action) = copy_step(
            done,
            CopyEvent::Looked {
                exists: outcome != CopyOutcome::Missing,
                present: outcome == CopyOutcome::Present,
            },
        );
        done = if action == CopyAction::Copy {
            let (tried, _) = copy_step(
                looked,
                match outcome {
                    CopyOutcome::Copied(n) => CopyEvent::Copied(n),
                    _ => CopyEvent::Failed,
                },
            );
            tried
        } else {
            looked
        };
        i += 1;
    }
    assert(outcomes@.subrange(0, i as int) =~= outcomes@);
    done
}

/// Which way a playlist is synced.
#[derive(Debug, Clone, Copy, PartialEq, Eq, Structural)]
pub enum PlaylistSyncDir {
    Push,
    Pull,
    Nothing,
    Conflict,
}

/// What came of the playlists that were to be synced.
#[derive(Debug, Clone, Copy, PartialEq, Eq, Structural)]
pub struct PlaylistApplyResult {
    pub pushed: usize,
    pub pulled: usize,
    pub skipped: usize,
}

/// How many playlists went a way.
pub open spec fn went(list: Seq<(PlaylistSyncDir, bool)>, dir: PlaylistSyncDir) -> nat
    decreases list.len(),
{
    if list.len() == 0 {
        0
    } else {
        went(list.drop_last(), dir) + if list.last() == (dir, true) {
            1nat
        } else {
            0
        }
    }
}

/// What was learnt of a playlist that is to be synced.
#[derive(Debug, Clone, Copy, PartialEq, Eq, Structural)]
pub enum ApplyEvent {
    /// The plan says which way it goes.
    Planned(PlaylistSyncDir),
    /// It was pushed to the device, and whether that succeeded.
    Pushed(bool),
    /// It was pulled from the device, and whether that succeeded.
    Pulled(bool),
}

/// What to do next about a playlist that is to be synced.
#[derive(Debug, Clone, Copy, PartialEq, Eq, Structural)]
pub enum ApplyAction {
    Push,
    Pull,
    /// Go on to the next playlist.
    Next,
}

/// How one event moves a sync of playlists on: one that is to be pushed or pulled
/// is, and counts as that where it succeeds; one that fails, needs nothing or is
/// in conflict is passed over.
pub open spec fn apply_moved(
    done: PlaylistApplyResult,
    event: ApplyEvent,
    after: PlaylistApplyResult,
    action: ApplyAction,
) -> bool {
    match event {
        ApplyEvent::Planned(PlaylistSyncDir::Push) => after == done && action == ApplyAction::Push,
        ApplyEvent::Planned(PlaylistSyncDir::Pull) => after == done && action == ApplyAction::Pull,
        ApplyEvent::Pushed(true) => {
            &&& after.pushed == done.pushed + 1
            &&& after == (PlaylistApplyResult { pushed: after.pushed, ..done })
            &&& action == ApplyAction::Next
        },
        ApplyEvent::Pulled(true) => {
            &&& after.pulled == done.pulled + 1
            &&& after == (PlaylistApplyResult { pulled: after.pulled, ..done })
            &&& action == ApplyAction::Next
        },
        _ => {
            &&& after.skipped == done.skipped + 1
            &&& after == (PlaylistApplyResult { skipped: after.skipped, ..done })
            &&& action == ApplyAction::Next
        },
    }
}

/// How one event moves a sync of playlists on, and what it asks for.
pub fn apply_step(done: PlaylistApplyResult, event: ApplyEvent) -> (r: (
    PlaylistApplyResult,
    ApplyAction,
))
    requires
        done.pushed < usize::MAX,
        done.pulled < usize::MAX,
        done.skipped < usize::MAX,
    ensures
        apply_moved(done, event, r.0, r.1),
{
    match event {
        ApplyEvent::Planned(PlaylistSyncDir::Push) => (done, ApplyAction::Push),
        ApplyEvent::Planned(PlaylistSyncDir::Pull) => (done, ApplyAction::Pull),
        ApplyEvent::Pushed(true) => (
            PlaylistApplyResult { pushed: done.pushed + 1, ..done },
            ApplyAction::Next,
        ),
        ApplyEvent::Pulled(true) => (
            PlaylistApplyResult { pulled: done.pulled + 1, ..done },
            ApplyAction::Next,
        ),
        _ => (PlaylistApplyResult { skipped: done.skipped + 1, ..done }, ApplyAction::Next),
    }
}

/// What came of the playlists that were to be synced, each with its way and
/// whether that succeeded: one that failed, needed nothing or was in conflict is
/// passed over.
pub fn sparkamp_device_playlist_apply(items: &Vec<(PlaylistSyncDir, bool)>) -> (r:
    PlaylistApplyResult)
    ensures
        r.pushed == went(items@, PlaylistSyncDir::Push),
        r.pulled == went(items@, PlaylistSyncDir::Pull),
        r.pushed + r.pulled + r.skipped == items@.len(),
{
    let mut done = PlaylistApplyResult { pushed: 0, pulled: 0, skipped: 0 };
    let mut i: usize = 0;
    assert(items@.subrange(0, 0) =~= Seq::empty());
    while i < items.len()
        invariant
            i <= items@.len(),
            done.pushed + done.pulled + done.skipped == i,
            done.pushed == went(items@.subrange(0, i as int), PlaylistSyncDir::Push),
            done.pulled == went(items@.subrange(0, i as int), PlaylistSyncDir::Pull),
        decreases items@.len() - i,
    {
        assert(items@.subrange(0, i + 1).drop_last() =~= items@.subrange(0, i as int));
        assert(items@.subrange(0, i + 1).last() == items@[i as int]);
        let (dir, ok) = items[i];
        let (planned, action) = apply_step(done, ApplyEvent::Planned(dir));
        done = match action {
            ApplyAction::Push => apply_step(planned, ApplyEvent::Pushed(ok)).0,
            ApplyAction::Pull => apply_step(planned, ApplyEvent::Pulled(ok)).0,
            ApplyAction::Next => planned,
        };
        i += 1;
    }
    assert(items@.subrange(0, i as int) =~= items@);
    done
}

/// A playlist file that was found on a device.
pub struct FoundPlaylist {
    /// Its path below the mount point.
    pub relpath: Option<String>,
    pub name: Option<String>,
    /// The names of the files in it, in order.
    pub entries: Vec<String>,
}

/// A playlist on a device as a list shows it.
pub struct DevicePlaylistDto {
    pub name: String,
    pub relpath: String,
    pub entries: Vec<String>,
}

/// What a list shows of a playlist.
pub struct PlaylistShown {
    pub name: Seq<char>,
    pub relpath: Seq<char>,
    pub entries: Seq<Seq<char>>,
}

/// What a list shows of playlists.
pub open spec fn shown_lists(list: Seq<DevicePlaylistDto>) -> Seq<PlaylistShown> {
    list.map_values(
        |p: DevicePlaylistDto|
            (PlaylistShown { name: p.name@, relpath: p.relpath@, entries: text::views(p.entries@) }),
    )
}

/// The playlists that a list shows: those below the mount point that have a name.
pub open spec fn listed(found: Seq<FoundPlaylist>) -> Seq<PlaylistShown>
    decreases found.len(),
{
    if found.len() == 0 {
        Seq::empty()
    } else {
        let head = listed(found.drop_last());
        let f = found.last();
        match (f.relpath, f.name) {
            (Some(rel), Some(name)) => head.push(
                PlaylistShown {
                    name: name@,
                    relpath: slashed(rel@),
                    entries: text::views(f.entries@),
                },
            ),
            _ => head,
        }
    }
}

/// The playlists on a device as a list shows them; nothing without a device.
pub fn sparkamp_device_playlists(device: Option<&Device>, found: &Vec<FoundPlaylist>) -> (r: Option<
    Vec<DevicePlaylistDto>,
>)
    ensures
        match r {
            Some(out) => device is Some && shown_lists(out@) == listed(found@),
            None => device is None,
        },
{
    if device.is_none() {
        return None;
    }
    let mut out: Vec<DevicePlaylistDto> = Vec::new();
    let mut i: usize = 0;
    assert(found@.subrange(0, 0) =~= Seq::empty());
    assert(shown_lists(out@) =~= Seq::empty());
    while i < found.len()
        invariant
            i <= found@.len(),
            shown_lists(out@) == listed(found@.subrange(0, i as int)),
        decreases found@.len() - i,
    {
        let ghost head = found@.subrange(0, i + 1);
        let ghost before = out@;
        assert(head.drop_last() =~= found@.subrange(0, i as int));
        assert(head.last() == found@[i as int]);
        if let (Some(rel), Some(name)) = (&found[i].relpath, &found[i].name) {
            let p = DevicePlaylistDto {
                name: name.clone(),
                relpath: with_slashes(rel.as_str()),
                entries: all_of(&found[i].entries),
            };
            out.push(p);
            assert(shown_lists(out@) =~= listed(head));
        }
        i += 1;
    }
    assert(found@.subrange(0, i as int) =~= found@);
    Some(out)
}

fn all_of(list: &Vec<String>) -> (r: Vec<String>)
    ensures
        text::views(r@) == text::views(list@),
{
    let mut out: Vec<String> = Vec::new();
    let mut i: usize = 0;
    while i < list.len()
        invariant
            i <= list@.len(),
            out@.len() == i,
            forall|k: int| 0 <= k < i ==> (#[trigger] out@[k])@ == list@[k]@,
        decreases list@.len() - i,
    {
        out.push(list[i].clone());
        i += 1;
    }
    assert(text::views(out@) =~= text::views(list@));
    out
}

/// What is told of a new playlist on a device.
pub struct PlaylistNewResult {
    pub ok: bool,
    pub relpath: String,
}

/// What is told of a new playlist on a device. `made` is where it was made, asked
/// only with a device and a name.
pub fn sparkamp_device_playlist_new(device: Option<&Device>, name: &CText, made: Option<String>) -> (r:
    PlaylistNewResult)
    ensures
        match made {
            Some(rel) if device is Some && name is Text => r.ok && r.relpath == rel,
            _ => !r.ok && r.relpath@ == Seq::<char>::empty(),
        },
{
    let none = String::new();
    assert(none@ =~= Seq::empty());
    match (device, name, made) {
        (Some(_), CText::Text(_), Some(rel)) => PlaylistNewResult { ok: true, relpath: rel },
        _ => PlaylistNewResult { ok: false, relpath: none },
    }
}

/// The library playlist to rename along with one on a device: the linked one,
/// once the file was renamed, without the space around the name. `linked` is the
/// library playlist that the old path belongs to.
pub fn sparkamp_device_playlist_rename(
    device: Option<&Device>,
    relpath: &CText,
    new_name: &CText,
    renamed: bool,
    linked: Option<i64>,
) -> (r: (bool, Option<(i64, String)>))
    ensures
        match (device, relpath, new_name) {
            (Some(_), CText::Text(_), CText::Text(n)) => {
                &&& r.0 == renamed
                &&& match r.1 {
                    Some((id, name)) => renamed && linked == Some(id) && name@ == text::trimmed(n@),
                    None => !renamed || linked is None,
                }
            },
            _ => !r.0 && r.1 is None,
        },
{
    match (device, relpath, new_name) {
        (Some(_), CText::Text(_), CText::Text(n)) => if renamed {
            match linked {
                Some(id) => (true, Some((id, trim(n.as_str())))),
                None => (true, None),
            }
        } else {
            (false, None)
        },
        _ => (false, None),
    }
}

/// Whether one of the first `n` paths names a file of this name.
pub open spec fn names_one(paths: Seq<Seq<char>>, n: int, name: Seq<char>) -> bool {
    exists|i: int|
        0 <= i < n && i < paths.len() && model::last_component(#[trigger] paths[i]) == Some(name)
}

fn holds(list: &Vec<String>, name: &str) -> (r: bool)
    ensures
        r == text::views(list@).contains(name@),
{
    let mut i: usize = 0;
    while i < list.len()
        invariant
            i <= list@.len(),
            forall|k: int| 0 <= k < i ==> (#[trigger] list@[k])@ != name@,
        decreases list@.len() - i,
    {
        if same(list[i].as_str(), name) {
            assert(text::views(list@)[i as int] == name@);
            return true;
        }
        i += 1;
    }
    assert forall|k: int| 0 <= k < list@.len() implies text::views(list@)[k] != name@ by {
        assert(list@[k]@ != name@);
    }
    false
}

/// The names of the files that paths name, each once.
pub fn file_names(paths: &Vec<String>) -> (r: Vec<String>)
    ensures
        text::views(r@).no_duplicates(),
        forall|name: Seq<char>| #[trigger]
            text::views(r@).contains(name) <==> names_one(
                text::views(paths@),
                paths@.len() as int,
                name,
            ),
{
    let ghost all = text::views(paths@);
    let mut out: Vec<String> = Vec::new();
    let mut i: usize = 0;
    while i < paths.len()
        invariant
            i <= paths@.len(),
            all == text::views(paths@),
            text::views(out@).no_duplicates(),
            forall|name: Seq<char>| #[trigger]
                text::views(out@).contains(name) <==> names_one(all, i as int, name),
        decreases paths@.len() - i,
    {
        assert(all[i as int] == paths@[i as int]@);
        let ghost before = text::views(out@);
        let found = last_component_of(paths[i].as_str());
        if let Some(name) = &found {
            if !holds(&out, name.as_str()) {
                out.push(name.clone());
                assert(text::views(out@) =~= before.push(name@));
            }
        }
        proof {
            let after = text::views(out@);
            assert forall|name: Seq<char>| #[trigger] after.contains(name) <==> names_one(
                all,
                i + 1,
                name,
            ) by {
                assert(before.contains(name) <==> names_one(all, i as int, name));
                if after.contains(name) {
                    let k = choose|k: int| 0 <= k < after.len() && after[k] == name;
                    if k < before.len() {
                        assert(before[k] == name);
                        assert(before.contains(name));
                        let j = choose|j: int|
                            0 <= j < i && j < all.len() && model::last_component(#[trigger] all[j])
                                == Some(name);
                        assert(model::last_component(all[j]) == Some(name));
                    } else {
                        assert(model::last_component(all[i as int]) == Some(name));
                    }
                }
                if names_one(all, i + 1, name) {
                    let j = choose|j: int|
                        0 <= j < i + 1 && j < all.len() && model::last_component(#[trigger] all[j])
                            == Some(name);
                    if j < i {
                        assert(names_one(all, i as int, name));
                        assert(before.contains(name));
                        let k = choose|k: int| 0 <= k < before.len() && before[k] == name;
                        assert(after[k] == name);
                    } else {
                        assert(found is Some && found->0@ == name);
                        if before.contains(name) {
                            let k = choose|k: int| 0 <= k < before.len() && before[k] == name;
                            assert(after[k] == name);
                        } else {
                            assert(after[after.len() - 1] == name);
                        }
                    }
                }
            }
        }
        i += 1;
    }
    out
}

/// What is to be taken out of a playlist on a device.
pub struct EntriesToRemove {
    /// The playlist file.
    pub playlist: String,
    /// The names of the files that go, each once.
    pub names: Vec<String>,
}

/// What is to be taken out of one playlist on a device: every entry whose file
/// has the name of one of the paths. Nothing without a device or a playlist.
pub fn sparkamp_device_playlist_remove_entries(
    device: Option<&Device>,
    relpath: &CText,
    paths_json: &CText,
) -> (r: Option<EntriesToRemove>)
    ensures
        match (device, relpath) {
            (Some(d), CText::Text(rel)) => {
                &&& r is Some
                &&& r->0.playlist@ == joined(d.mount_path@, rel@)
                &&& text::views(r->0.names@).no_duplicates()
                &&& forall|name: Seq<char>| #[trigger]
                    text::views(r->0.names@).contains(name) <==> names_one(
                        json::strings_given(*paths_json),
                        json::strings_given(*paths_json).len() as int,
                        name,
                    )
            },
            _ => r is None,
        },
{
    match (device, relpath) {
        (Some(d), CText::Text(rel)) => {
            let paths = given_strings(paths_json);
            Some(
                EntriesToRemove {
                    playlist: join(d.mount_path.as_str(), rel.as_str()),
                    names: file_names(&paths),
                },
            )
        },
        _ => None,
    }
}

/// The files to delete from a device; nothing without a device.
pub fn files_to_delete(device: Option<&Device>, paths_json: &CText) -> (r: Option<Vec<String>>)
    ensures
        match r {
            Some(paths) => device is Some && text::views(paths@) == json::strings_given(*paths_json),
            None => device is None,
        },
{
    match device {
        Some(_) => Some(given_strings(paths_json)),
        None => None,
    }
}

/// What is told of files that were to be deleted: how many could not be, and
/// minus one without a device. The number is cut to the width that crosses.
pub fn sparkamp_device_delete_files(device: Option<&Device>, failed: usize) -> (r: i32)
    ensures
        r == (match device {
            Some(_) => failed as i32,
            None => -1i32,
        }),
{
    match device {
        Some(_) => {
            #[verifier::truncate]
            (failed as i32)
        },
        None => -1,
    }
}

/// A path below another: an absolute one stands for itself, and the slash between
/// them is not doubled.
pub open spec fn joined(base: Seq<char>, rel: Seq<char>) -> Seq<char> {
    if rel.len() > 0 && rel[0] == '/' {
        rel
    } else if base.len() == 0 {
        rel
    } else if base.last() == '/' {
        base + rel
    } else {
        base.push('/') + rel
    }
}

/// A path below another.
pub fn join(base: &str, rel: &str) -> (r: String)
    ensures
        r@ == joined(base@, rel@),
{
    let n: usize = base.unicode_len();
    if rel.unicode_len() > 0 && rel.get_char(0) == '/' {
        return rel.to_owned();
    }
    if n == 0 {
        return rel.to_owned();
    }
    let mut out = base.to_owned();
    if base.get_char(n - 1) != '/' {
        out.push('/');
    }
    out.append(rel);
    out
}

/// The file whose artwork is shown for one side of a conflict: 1 is the file on
/// the device, any other the library's, which the first pair names. Nothing
/// without a device or a path, or where no pair is of that path.
pub fn conflict_file(device: Option<&Device>, relpath: &CText, side: i32, pairs: &Vec<SyncPair>) -> (r:
    Option<String>)
    ensures
        match (device, relpath) {
            (Some(d), CText::Text(rel)) => if side == 1 {
                r matches Some(path) && path@ == joined(d.mount_path@, rel@)
            } else {
                first_origin(pairs@, rel@, r)
            },
            _ => r is None,
        },
{
    let d = match device {
        Some(d) => d,
        None => return None,
    };
    let rel = match relpath {
        CText::Text(rel) => rel,
        _ => return None,
    };
    if side == 1 {
        return Some(join(d.mount_path.as_str(), rel.as_str()));
    }
    let want = with_slashes(rel.as_str());
    let mut i: usize = 0;
    while i < pairs.len()
        invariant
            i <= pairs@.len(),
            device == Some(d),
            *relpath == CText::Text(*rel),
            side != 1,
            want@ == slashed(rel@),
            forall|k: int| 0 <= k < i ==> !is_pair_of(#[trigger] pairs@[k], rel@),
        decreases pairs@.len() - i,
    {
        let have = with_slashes(pairs[i].device_relpath.as_str());
        if same(have.as_str(), want.as_str()) {
            assert(first_pair(pairs@, rel@, i as int));
            return Some(pairs[i].library_path.clone());
        }
        i += 1;
    }
    None
}

/// The first picture of a file, if it has one. `pictures` is what its tag holds.
pub fn first_picture(pictures: Option<&Vec<Vec<u8>>>) -> (r: Option<Vec<u8>>)
    ensures
        match r {
            Some(bytes) => pictures matches Some(list) && list@.len() > 0 && bytes@ == list@[0]@,
            None => pictures matches Some(list) ==> list@.len() == 0,
        },
{
    match pictures {
        Some(list) => if list.len() > 0 {
            let bytes = list[0].clone();
            assert(bytes@ =~= list@[0]@);
            Some(bytes)
        } else {
            None
        },
        None => None,
    }
}

/// The artwork of one side of a conflict: the first picture of the file, and
/// nothing where that is empty.
pub fn sparkamp_device_conflict_artwork(file: Option<&str>, pictures: Option<&Vec<Vec<u8>>>) -> (r:
    Option<Vec<u8>>)
    ensures
        match r {
            Some(bytes) => file is Some && bytes@.len() > 0 && (pictures matches Some(list)
                && list@.len() > 0 && bytes@ == list@[0]@),
            None => file is None || (pictures matches Some(list) ==> list@.len() == 0
                || list@[0]@.len() == 0),
        },
{
    if file.is_none() {
        return None;
    }
    match first_picture(pictures) {
        Some(bytes) => if bytes.len() > 0 {
            Some(bytes)
        } else {
            None
        },
        None => None,
    }
}

/// Whether a file system is one that is not written to reliably.
pub open spec fn unreliable(fs_type: Seq<char>) -> bool {
    text::lowered(fs_type) == "ntfs"@ || text::lowered(fs_type) == "exfat"@
}

/// Whether a file system is one that is not written to reliably; one that is not
/// named is not.
pub fn sparkamp_device_fs_unsupported(fs_type: &CText) -> (r: bool)
    ensures
        r == (match fs_type {
            CText::Text(s) => unreliable(s@),
            _ => false,
        }),
{
    match fs_type {
        CText::Text(s) => {
            let low = to_lower(s.as_str());
            same(low.as_str(), "ntfs") || same(low.as_str(), "exfat")
        },
        _ => false,
    }
}

/// A volume is known by its own id where it has one, and by its marker where it has none;
/// only then is the marker looked for, and made only where the volume can be written.
pub proof fn law_a_volume_is_known_by_its_id_or_its_marker(v: VolumeIn, marker: Option<String>)
    ensures
        (v.volume_uuid matches Some(u) && u@.len() > 0) ==> {
            &&& identity(&v, marker) == v.volume_uuid.unwrap()@
            &&& marker_needed(&v) == MarkerWork::Leave
        },
        v.volume_uuid is None || v.volume_uuid.unwrap()@.len() == 0 ==> {
            &&& marker matches Some(m) ==> identity(&v, marker) == m@
            &&& marker is None ==> identity(&v, marker).len() == 0
            &&& v.read_only ==> marker_needed(&v) == MarkerWork::Read
            &&& !v.read_only ==> marker_needed(&v) == MarkerWork::Ensure
        },
{
}

/// A device shows its volume as it is: label, mount point, file system, sizes and rights.
pub proof fn law_a_device_shows_its_volume(d: Device, v: VolumeIn, marker: Option<String>)
    requires
        d.stands_for(&v, marker),
    ensures
        d.label@ == v.label@,
        d.mount_path@ == v.mount_path@,
        d.fs_type@ == v.fs_type@,
        d.total_bytes == v.total_bytes,
        d.free_bytes == v.free_bytes,
        d.read_only == v.read_only,
        d.ejectable == v.ejectable,
        d.backend_id@ == v.bsd_name@,
        d.fs_visible,
{
}

/// The number of a format: one is plain, and any other the one with Unicode.
pub proof fn law_formats_end_as_they_are_numbered(format: i32)
    ensures
        format == 1 ==> format_ending(format) == seq!['m', '3', 'u'],
        format != 1 ==> format_ending(format) == seq!['m', '3', 'u', '8'],
{
    reveal_strlit("m3u");
    reveal_strlit("m3u8");
    assert("m3u"@ =~= seq!['m', '3', 'u']);
    assert("m3u8"@ =~= seq!['m', '3', 'u', '8']);
}

/// Separators of either kind read the same, and no other character changes.
pub proof fn law_separators_read_the_same(path: Seq<char>, i: int)
    requires
        0 <= i < path.len(),
    ensures
        slashed(path).len() == path.len(),
        path[i] == '\\' ==> slashed(path)[i] == '/',
        path[i] != '\\' ==> slashed(path)[i] == path[i],
        slashed(slashed(path)) == slashed(path),
{
    assert(slashed(slashed(path)) =~= slashed(path));
}

/// A file on a device comes from where its pair says, whichever separators the two write;
/// of several pairs the list shows the last and a conflict the first, and a file without one
/// comes from nowhere.
pub proof fn law_a_file_comes_from_where_its_pair_says(
    pairs: Seq<SyncPair>,
    rel: Seq<char>,
    last: Option<String>,
    first: Option<String>,
    k: int,
)
    requires
        last_origin(pairs, rel, last),
        first_origin(pairs, rel, first),
        0 <= k < pairs.len(),
        slashed(pairs[k].device_relpath@) == slashed(rel),
    ensures
        last is Some,
        first is Some,
        (forall|j: int|
            0 <= j < pairs.len() && j != k ==> slashed((#[trigger] pairs[j]).device_relpath@)
                != slashed(rel)) ==> last.unwrap()@ == pairs[k].library_path@ && first.unwrap()@
            == pairs[k].library_path@,
        (forall|j: int|
            k < j < pairs.len() ==> slashed((#[trigger] pairs[j]).device_relpath@) != slashed(rel))
            ==> last.unwrap()@ == pairs[k].library_path@,
        (forall|j: int| 0 <= j < k ==> slashed((#[trigger] pairs[j]).device_relpath@) != slashed(rel))
            ==> first.unwrap()@ == pairs[k].library_path@,
{
    assert(is_pair_of(pairs[k], rel));
}

/// Every file that was to be copied is counted once, as copied or as passed over, and bytes
/// are those of the copied ones.
pub proof fn law_copies_are_counted_one_by_one(list: Seq<CopyOutcome>, o: CopyOutcome, n: u64)
    ensures
        copies(Seq::empty()) == 0,
        bytes_copied(Seq::empty()) == 0,
        copies(list.push(CopyOutcome::Copied(n))) == copies(list) + 1,
        bytes_copied(list.push(CopyOutcome::Copied(n))) == bytes_copied(list) + n,
        !(o is Copied) ==> copies(list.push(o)) == copies(list) && bytes_copied(list.push(o))
            == bytes_copied(list),
{
    assert(list.push(CopyOutcome::Copied(n)).drop_last() =~= list);
    assert(list.push(o).drop_last() =~= list);
}

/// Whatever is learnt of a file, it is copied just where it is there and the device has it
/// not; it is recorded just where the device has it, and counted once when that is settled.
pub proof fn law_a_copy_settles_each_file_once(
    done: CopyResult,
    event: CopyEvent,
    after: CopyResult,
    action: CopyAction,
)
    requires
        copy_moved(done, event, after, action),
    ensures
        (action == CopyAction::Copy) == (event matches CopyEvent::Looked { exists, present } && exists
            && !present),
        (action == CopyAction::Record) == match event {
            CopyEvent::Looked { exists, present } => exists && present,
            CopyEvent::Copied(_) => true,
            CopyEvent::Failed => false,
        },
        action == CopyAction::Copy ==> after == done,
        action != CopyAction::Copy ==> after.copied + after.skipped == done.copied + done.skipped + 1,
        event matches CopyEvent::Copied(n) ==> after.copied == done.copied + 1 && after.bytes
            == done.bytes + n,
        !(event is Copied) ==> after.copied == done.copied && after.bytes == done.bytes,
{
}

/// A playlist goes the way that is planned for it, and is counted once when that is settled:
/// as pushed or pulled where that succeeded, and else as passed over.
pub proof fn law_a_playlist_is_settled_once(
    done: PlaylistApplyResult,
    event: ApplyEvent,
    after: PlaylistApplyResult,
    action: ApplyAction,
)
    requires
        apply_moved(done, event, after, action),
    ensures
        (action == ApplyAction::Push) == (event == ApplyEvent::Planned(PlaylistSyncDir::Push)),
        (action == ApplyAction::Pull) == (event == ApplyEvent::Planned(PlaylistSyncDir::Pull)),
        action != ApplyAction::Next ==> after == done,
        action == ApplyAction::Next ==> after.pushed + after.pulled + after.skipped == done.pushed
            + done.pulled + done.skipped + 1,
        (after.pushed == done.pushed + 1) == (event == ApplyEvent::Pushed(true)),
        (after.pulled == done.pulled + 1) == (event == ApplyEvent::Pulled(true)),
        after.pushed >= done.pushed,
        after.pulled >= done.pulled,
{
}

/// Playlists that went a way are counted where they succeeded, each once.
pub proof fn law_ways_are_counted_one_by_one(
    list: Seq<(PlaylistSyncDir, bool)>,
    item: (PlaylistSyncDir, bool),
    dir: PlaylistSyncDir,
)
    ensures
        went(Seq::empty(), dir) == 0,
        item.0 == dir && item.1 ==> went(list.push(item), dir) == went(list, dir) + 1,
        item.0 != dir || !item.1 ==> went(list.push(item), dir) == went(list, dir),
{
    assert(list.push(item).drop_last() =~= list);
}

/// The playlists of a device are listed in their order, each that has a place and a name,
/// with its entries; one without either is left out.
pub proof fn law_device_playlists_are_listed_in_order(found: Seq<FoundPlaylist>, f: FoundPlaylist)
    ensures
        listed(Seq::empty()).len() == 0,
        (f.relpath is Some && f.name is Some) ==> {
            &&& listed(found.push(f)).len() == listed(found).len() + 1
            &&& listed(found.push(f)).drop_last() == listed(found)
            &&& listed(found.push(f)).last().name == f.name.unwrap()@
            &&& listed(found.push(f)).last().relpath == slashed(f.relpath.unwrap()@)
            &&& listed(found.push(f)).last().entries == text::views(f.entries@)
        },
        f.relpath is None || f.name is None ==> listed(found.push(f)) == listed(found),
{
    assert(found.push(f).drop_last() =~= found);
    if f.relpath is Some && f.name is Some {
        assert(listed(found.push(f)).drop_last() =~= listed(found));
    }
}

/// A path below a mount point: the two with one separator between them, and an absolute
/// path as it is.
pub proof fn law_paths_are_joined_by_one_separator(base: Seq<char>, rel: Seq<char>)
    requires
        base.len() > 0,
        base.last() != '/',
        rel.len() > 0,
        rel[0] != '/',
    ensures
        joined(base, rel) == base + seq!['/'] + rel,
        joined(base.push('/'), rel) == base + seq!['/'] + rel,
        joined(base, seq!['/'] + rel) == seq!['/'] + rel,
        joined(Seq::empty(), rel) == rel,
{
    assert(base.push('/') =~= base + seq!['/']);
    assert((seq!['/'] + rel)[0] == '/');
}

/// The two file systems that cannot be relied on are these, in capitals or not.
pub proof fn law_which_file_systems_are_unreliable(fs_type: Seq<char>)
    ensures
        unreliable(fs_type) == (text::lowered(fs_type) == seq!['n', 't', 'f', 's'] || text::lowered(
            fs_type,
        ) == seq!['e', 'x', 'f', 'a', 't']),
{
    reveal_strlit("ntfs");
    reveal_strlit("exfat");
    assert("ntfs"@ =~= seq!['n', 't', 'f', 's']);
    assert("exfat"@ =~= seq!['e', 'x', 'f', 'a', 't']);
}

/// A name is among several paths where one of them ends in it.
pub proof fn law_a_name_is_among_paths_that_end_in_it(
    paths: Seq<Seq<char>>,
    dir: Seq<char>,
    name: Seq<char>,
    i: int,
)
    requires
        0 <= i < paths.len(),
        paths[i] == dir.push('/') + name,
        name.len() > 0,
        !name.contains('/'),
        name != seq!['.'],
        name != seq!['.', '.'],
    ensures
        names_one(paths, paths.len() as int, name),
        names_one(paths, i + 1, name),
{
    model::law_the_last_component_is_the_name(dir, name, 0);
    assert(dir.push('/') + name + Seq::new(0, |k: int| '/') =~= paths[i]);
    assert(model::last_component(paths[i]) == Some(name));
}

/// A file on a device is shown with the library's file that it was copied from, by the last
/// record of it; one outside the device's tree is shown with none.
pub proof fn law_a_file_is_shown_with_its_origin(
    pairs: Seq<SyncPair>,
    f: FoundFile,
    from: Option<String>,
    i: int,
)
    requires
        origin_shown(pairs, f, from),
    ensures
        f.relpath is None ==> from is None,
        f.relpath matches Some(rel) ==> 0 <= i < pairs.len() && pairs[i].device_relpath@ == rel@ && (
        forall|k: int|
            i < k < pairs.len() ==> slashed((#[trigger] pairs[k]).device_relpath@) != slashed(rel@))
            ==> (from matches Some(path) && path@ == pairs[i].library_path@),
{
    if let Some(rel) = f.relpath {
        if 0 <= i < pairs.len() && pairs[i].device_relpath@ == rel@ && (forall|k: int|
            i < k < pairs.len() ==> slashed((#[trigger] pairs[k]).device_relpath@) != slashed(
                rel@,
            )) {
            assert(is_pair_of(pairs[i], rel@));
            match from {
                Some(path) => {
                    let j = choose|j: int| #[trigger]
                        last_pair(pairs, rel@, j) && path@ == pairs[j].library_path@;
                    assert(last_pair(pairs, rel@, j));
                    if j < i {
                        assert(!is_pair_of(pairs[i], rel@));
                    } else if i < j {
                        assert(is_pair_of(pairs[j], rel@));
                    }
                },
                None => {},
            }
        }
    }
}

/// A playlist is shown with its own name, place and entries, in its place.
pub proof fn law_a_list_is_shown_as_it_was_found(list: Seq<DevicePlaylistDto>, i: int)
    requires
        0 <= i < list.len(),
    ensures
        shown_lists(list).len() == list.len(),
        shown_lists(list)[i].name == list[i].name@,
        shown_lists(list)[i].relpath == list[i].relpath@,
        shown_lists(list)[i].entries == text::views(list[i].entries@),
{
}

/// A track crosses to a device with each of its data in its own place; a text that is not
/// known crosses empty and a number as nought.
pub proof fn law_a_device_track_shows_its_own_data(d: DeviceTrackDto, t: LibTrack)
    requires
        d.stands_for(&t),
    ensures
        d.path@ == t.path@,
        t.title matches Some(s) ==> d.title@ == s@,
        t.title is None ==> d.title@ == t.filename@,
        t.artist matches Some(s) ==> d.artist@ == s@,
        t.artist is None ==> d.artist@.len() == 0,
        t.album matches Some(s) ==> d.album@ == s@,
        t.album is None ==> d.album@.len() == 0,
        t.album_artist matches Some(s) ==> d.album_artist@ == s@,
        t.genre matches Some(s) ==> d.genre@ == s@,
        t.composer matches Some(s) ==> d.composer@ == s@,
        t.comment matches Some(s) ==> d.comment@ == s@,
        t.bpm matches Some(s) ==> d.bpm@ == s@,
        t.last_played matches Some(s) ==> d.last_played@ == s@,
        t.year matches Some(n) ==> d.year == n,
        t.year is None ==> d.year == 0,
        t.track_num matches Some(n) ==> d.track_num == n,
        t.disc_num matches Some(n) ==> d.disc_num == n,
        t.length matches Some(ns) ==> d.length == ns,
        t.length is None ==> d.length == 0,
        t.bitrate matches Some(n) ==> d.bitrate == n,
        d.play_count == t.play_count,
        d.has_art <==> t.artwork_path is Some,
{
}

} // verus!
