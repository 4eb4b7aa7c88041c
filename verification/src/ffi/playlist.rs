//! The playlist.

use crate::config;
use crate::config::PlaylistAddBehavior;
use crate::engine;
use crate::engine::backend::AudioBackend;
use crate::ffi;
use crate::ffi::playback;
use crate::ffi::playback::row_at;
use crate::ffi::queue;
use crate::ffi::queue::sync_queue_to_playlist;
use crate::ffi::{start_current, Gains, SparkampCtx};
use crate::model;
use crate::model::{Playlist, SortKey, Track};
use crate::order;
use crate::text;
use crate::text::{fits_c, or_empty, same, to_c};
use vstd::prelude::*;

verus! {

/// A list with tracks added behind it, each stamped with an id of its own.
pub open spec fn added(p: model::PlaylistView, tracks: Seq<Track>) -> model::PlaylistView {
    model::PlaylistView {
        rows: p.rows + Seq::new(
            tracks.len(),
            |k: int| model::TrackView { id: (p.next_id + k) as u64, ..tracks[k]@ },
        ),
        next_id: p.next_id + tracks.len(),
        ..p
    }
}

/// A count cut to the width that crosses.
pub fn crossing(n: usize) -> (r: i32)
    ensures
        r == n as i32,
{
    #[verifier::truncate]
    (n as i32)
}

/// Adds the tracks that were read of a file, or of the files of a folder.
pub fn sparkamp_playlist_add<B: AudioBackend>(ctx: Option<&mut SparkampCtx<B>>, found: &Vec<Track>)
    requires
        ctx matches Some(c) ==> c.wf() && c.playlist@.room(found@.len() as int),
    ensures
        ctx matches Some(c) ==> {
            &&& final(c).wf()
            &&& final(c).playlist@ == added(c.playlist@, found@)
            &&& *final(c) == (SparkampCtx { playlist: final(c).playlist, ..*c })
        },
{
    if let Some(c) = ctx {
        let ghost before = c.playlist@;
        let ghost whole = *c;
        let mut i: usize = 0;
        assert(c.playlist@.rows =~= added(before, found@.subrange(0, 0)).rows);
        while i < found.len()
            invariant
                i <= found@.len(),
                before.room(found@.len() as int),
                c.wf(),
                c.playlist@ == added(before, found@.subrange(0, i as int)),
                *c == (SparkampCtx { playlist: c.playlist, ..whole }),
                before == whole.playlist@,
                0 <= before.next_id,
            decreases found@.len() - i,
        {
            let ghost rows = c.playlist@.rows;
            c.playlist.add(found[i].clone());
            assert(c.playlist@.rows =~= added(before, found@.subrange(0, i + 1)).rows);
            proof {
                crate::queue::lemma_still_live(c.queue@, rows, c.playlist@.rows);
            }
            i += 1;
        }
        assert(found@.subrange(0, i as int) =~= found@);
    }
}

/// Adds a file by its name alone, where it could be. The row it landed at, or
/// minus one.
pub fn sparkamp_playlist_add_fast<B: AudioBackend>(
    ctx: Option<&mut SparkampCtx<B>>,
    track: Option<Track>,
) -> (r: i32)
    requires
        ctx matches Some(c) ==> c.wf() && c.playlist@.room(1),
    ensures
        ctx is None ==> r == -1,
        ctx matches Some(c) ==> {
            &&& final(c).wf()
            &&& *final(c) == (SparkampCtx { playlist: final(c).playlist, ..*c })
            &&& match track {
                Some(t) => {
                    &&& r == c.playlist@.rows.len() as i32
                    &&& final(c).playlist@ == added(c.playlist@, seq![t])
                },
                None => r == -1 && *final(c) == *c,
            }
        },
{
    match (ctx, track) {
        (Some(c), Some(t)) => {
            let ghost before = c.playlist@;
            let at: usize = c.playlist.len();
            c.playlist.add(t);
            assert(c.playlist@.rows =~= added(before, seq![t]).rows);
            proof {
                crate::queue::lemma_still_live(c.queue@, before.rows, c.playlist@.rows);
            }
            crossing(at)
        },
        _ => -1,
    }
}

/// The entry of a disc track: its data come from the disc, not from a file, and
/// it is never writable in place.
pub open spec fn disc_entry(
    path: Seq<char>,
    title: Seq<char>,
    artist: Seq<char>,
    album: Seq<char>,
    duration_secs: i32,
    id: u64,
) -> model::TrackView {
    model::TrackView {
        path,
        title,
        artist,
        album_artist: Seq::empty(),
        album,
        duration: if duration_secs > 0 {
            Some((duration_secs * 1_000_000_000) as u64)
        } else {
            None
        },
        broken: false,
        read_only: true,
        id,
    }
}

/// Adds an entry whose data are known. The row it landed at, or minus one where
/// the path or the title is missing or empty.
pub fn sparkamp_playlist_add_entry<B: AudioBackend>(
    ctx: Option<&mut SparkampCtx<B>>,
    path: Option<&str>,
    title: Option<&str>,
    artist: Option<&str>,
    album: Option<&str>,
    duration_secs: i32,
) -> (r: i32)
    requires
        ctx matches Some(c) ==> c.wf() && c.playlist@.room(1),
    ensures
        ctx is None ==> r == -1,
        ctx matches Some(c) ==> {
            &&& final(c).wf()
            &&& *final(c) == (SparkampCtx { playlist: final(c).playlist, ..*c })
            &&& if text::given(path).len() > 0 && text::given(title).len() > 0 {
                &&& r == c.playlist@.rows.len() as i32
                &&& final(c).playlist@ == (model::PlaylistView {
                    rows: c.playlist@.rows.push(
                        disc_entry(
                            text::given(path),
                            text::given(title),
                            text::given(artist),
                            text::given(album),
                            duration_secs,
                            c.playlist@.next_id as u64,
                        ),
                    ),
                    next_id: c.playlist@.next_id + 1,
                    ..c.playlist@
                })
            } else {
                r == -1 && *final(c) == *c
            }
        },
{
    let c = match ctx {
        Some(c) => c,
        None => return -1,
    };
    let path = or_empty(path);
    let title = or_empty(title);
    if path.as_str().unicode_len() == 0 || title.as_str().unicode_len() == 0 {
        return -1;
    }
    let at: usize = c.playlist.len();
    let album_artist = String::new();
    assert(album_artist@ =~= Seq::empty());
    let track = Track {
        path,
        title,
        artist: or_empty(artist),
        album_artist,
        album: or_empty(album),
        duration: if duration_secs > 0 {
            Some((duration_secs as u64) * 1_000_000_000)
        } else {
            None
        },
        broken: false,
        read_only: true,
        id: 0,
    };
    let ghost before = c.playlist@.rows;
    c.playlist.add(track);
    proof {
        crate::queue::lemma_still_live(c.queue@, before, c.playlist@.rows);
    }
    crossing(at)
}

/// The rows among indices of the interface, negative ones left out.
pub open spec fn rows_among(indices: Seq<i32>) -> Seq<usize>
    decreases indices.len(),
{
    if indices.len() == 0 {
        Seq::empty()
    } else {
        let head = rows_among(indices.drop_last());
        if indices.last() >= 0 {
            head.push(indices.last() as usize)
        } else {
            head
        }
    }
}

/// Moves several rows as one block that lands before `dest`, in their order.
/// Where it landed, or minus one when nothing moved.
pub fn sparkamp_playlist_move_many<B: AudioBackend>(
    ctx: Option<&mut SparkampCtx<B>>,
    indices: Option<&Vec<i32>>,
    dest: i32,
) -> (r: i32)
    requires
        ctx matches Some(c) ==> c.wf(),
    ensures
        ctx is None ==> r == -1,
        ctx matches Some(c) ==> {
            &&& final(c).wf()
            &&& *final(c) == (SparkampCtx { playlist: final(c).playlist, ..*c })
            &&& match indices {
                Some(given) if dest >= 0 => {
                    let n = c.playlist@.rows.len() as int;
                    let chosen = model::named(rows_among(given@), n);
                    let at = if dest < n {
                        dest as int
                    } else {
                        n
                    };
                    if order::picks(chosen, 0, n, true).len() > 0 {
                        &&& r == order::picks(chosen, 0, at, false).len() as i32
                        &&& final(c).playlist@ == model::reordered(
                            c.playlist@,
                            order::block(chosen, at),
                        )
                    } else {
                        r == -1 && final(c).playlist@ == c.playlist@
                    }
                },
                _ => r == -1 && *final(c) == *c,
            }
        },
{
    let c = match ctx {
        Some(c) => c,
        None => return -1,
    };
    let given = match indices {
        Some(given) => given,
        None => return -1,
    };
    if dest < 0 {
        return -1;
    }
    let mut rows: Vec<usize> = Vec::new();
    let mut i: usize = 0;
    assert(given@.subrange(0, 0) =~= Seq::empty());
    while i < given.len()
        invariant
            i <= given@.len(),
            rows@ == rows_among(given@.subrange(0, i as int)),
        decreases given@.len() - i,
    {
        assert(given@.subrange(0, i + 1).drop_last() =~= given@.subrange(0, i as int));
        if given[i] >= 0 {
            rows.push(given[i] as usize);
        }
        i += 1;
    }
    assert(given@.subrange(0, i as int) =~= given@);
    let ghost before = c.playlist@.rows;
    let landed = c.playlist.move_tracks(&rows, dest as usize);
    proof {
        crate::queue::lemma_live_in_any_order(c.queue@, before, c.playlist@.rows);
    }
    match landed {
        Some((start, _)) => crossing(start),
        None => -1,
    }
}

/// Tags to write over a row; the album artist only where it is given.
pub struct Tags {
    pub title: Seq<char>,
    pub artist: Seq<char>,
    pub album_artist: Option<Seq<char>>,
    pub album: Seq<char>,
}

/// A row with tags written over it.
pub open spec fn retagged(t: model::TrackView, tags: Tags) -> model::TrackView {
    model::TrackView {
        title: tags.title,
        artist: tags.artist,
        album_artist: match tags.album_artist {
            Some(a) => a,
            None => t.album_artist,
        },
        album: tags.album,
        ..t
    }
}

/// The rows with tags written over those that are hit.
pub open spec fn all_retagged(rows: Seq<model::TrackView>, hit: Seq<bool>, tags: Tags) -> Seq<
    model::TrackView,
> {
    Seq::new(
        rows.len(),
        |i: int|
            if hit[i] {
                retagged(rows[i], tags)
            } else {
                rows[i]
            },
    )
}

/// How many of the first `n` are hit.
pub open spec fn hits(hit: Seq<bool>, n: int) -> int
    decreases n,
{
    if n <= 0 {
        0
    } else {
        hits(hit, n - 1) + if hit[n - 1] {
            1int
        } else {
            0int
        }
    }
}

/// Writes tags over the rows that are hit, and counts them.
fn retag_rows(
    playlist: &mut Playlist,
    hit: &Vec<bool>,
    title: &str,
    artist: &str,
    album_artist: Option<&str>,
    album: &str,
) -> (r: usize)
    requires
        old(playlist)@.wf(),
        hit@.len() == old(playlist)@.rows.len(),
    ensures
        final(playlist)@.wf(),
        r == hits(hit@, hit@.len() as int),
        final(playlist)@ == (model::PlaylistView {
            rows: all_retagged(
                old(playlist)@.rows,
                hit@,
                (Tags {
                    title: title@,
                    artist: artist@,
                    album_artist: match album_artist {
                        Some(a) => Some(a@),
                        None => None,
                    },
                    album: album@,
                }),
            ),
            ..old(playlist)@
        }),
        r == 0 ==> final(playlist)@ == old(playlist)@,
{
    let n: usize = hit.len();
    let mut count: usize = 0;
    let mut i: usize = 0;
    let ghost rows = playlist@.rows;
    let ghost tags = Tags {
        title: title@,
        artist: artist@,
        album_artist: match album_artist {
            Some(a) => Some(a@),
            None => None,
        },
        album: album@,
    };
    while i < n
        invariant
            i <= n,
            n == hit@.len(),
            n == rows.len(),
            rows == old(playlist)@.rows,
            tags == (Tags {
                title: title@,
                artist: artist@,
                album_artist: match album_artist {
                    Some(a) => Some(a@),
                    None => None,
                },
                album: album@,
            }),
            playlist@.wf(),
            count == hits(hit@, i as int),
            0 <= count <= i,
            count == 0 ==> playlist@ == old(playlist)@,
            playlist@ == (model::PlaylistView { rows: playlist@.rows, ..old(playlist)@ }),
            playlist@.rows.len() == n,
            forall|k: int|
                0 <= k < n ==> #[trigger] playlist@.rows[k] == (if k < i && hit@[k] {
                    retagged(rows[k], tags)
                } else {
                    rows[k]
                }),
        decreases n - i,
    {
        if hit[i] {
            if let Some(t) = playlist.track(i) {
                let mut t = t.clone();
                t.title = title.to_owned();
                t.artist = artist.to_owned();
                if let Some(a) = album_artist {
                    t.album_artist = a.to_owned();
                }
                t.album = album.to_owned();
                playlist.set_track(i, t);
            }
            count += 1;
        }
        i += 1;
    }
    assert(playlist@.rows =~= all_retagged(rows, hit@, tags));
    count
}

/// Which rows stand for a file: those whose resolved path is the file's.
pub open spec fn same_file(resolved: Seq<String>, target: Seq<char>) -> Seq<bool> {
    resolved.map_values(|p: String| p@ == target)
}

/// Writes the tags that were just read of a file over every row that holds it.
///
/// `resolved` gives for each row the path that its own resolves to, `target` the
/// path that `raw` resolves to, `fresh` what was read there. How many rows were
/// updated; none for an empty path or where nothing could be read.
pub fn rescan_rows_by_path(
    playlist: &mut Playlist,
    raw: &str,
    target: &str,
    resolved: &Vec<String>,
    fresh: Option<&Track>,
) -> (r: usize)
    requires
        old(playlist)@.wf(),
        resolved@.len() == old(playlist)@.rows.len(),
    ensures
        final(playlist)@.wf(),
        match fresh {
            Some(f) if raw@.len() > 0 => {
                &&& r == hits(same_file(resolved@, target@), resolved@.len() as int)
                &&& final(playlist)@ == (model::PlaylistView {
                    rows: all_retagged(
                        old(playlist)@.rows,
                        same_file(resolved@, target@),
                        (Tags {
                            title: f.title@,
                            artist: f.artist@,
                            album_artist: Some(f.album_artist@),
                            album: f.album@,
                        }),
                    ),
                    ..old(playlist)@
                })
            },
            _ => r == 0 && final(playlist)@ == old(playlist)@,
        },
{
    if raw.unicode_len() == 0 {
        return 0;
    }
    let f = match fresh {
        Some(f) => f,
        None => return 0,
    };
    let mut hit: Vec<bool> = Vec::new();
    let mut i: usize = 0;
    while i < resolved.len()
        invariant
            i <= resolved@.len(),
            hit@.len() == i,
            forall|k: int| 0 <= k < i ==> #[trigger] hit@[k] == (resolved@[k]@ == target@),
        decreases resolved@.len() - i,
    {
        hit.push(same(resolved[i].as_str(), target));
        i += 1;
    }
    assert(hit@ =~= same_file(resolved@, target@));
    retag_rows(
        playlist,
        &hit,
        f.title.as_str(),
        f.artist.as_str(),
        Some(f.album_artist.as_str()),
        f.album.as_str(),
    )
}

/// Writes the tags that were just read of a file over every row that holds it.
pub fn sparkamp_playlist_rescan_path<B: AudioBackend>(
    ctx: Option<&mut SparkampCtx<B>>,
    path: Option<&str>,
    target: &str,
    resolved: &Vec<String>,
    fresh: Option<&Track>,
) -> (r: usize)
    requires
        ctx matches Some(c) ==> c.wf() && resolved@.len() == c.playlist@.rows.len(),
    ensures
        ctx is None ==> r == 0,
        ctx matches Some(c) ==> {
            &&& final(c).wf()
            &&& *final(c) == (SparkampCtx { playlist: final(c).playlist, ..*c })
            &&& match (path, fresh) {
                (Some(p), Some(f)) if p@.len() > 0 => {
                    &&& r == hits(same_file(resolved@, target@), resolved@.len() as int)
                    &&& final(c).playlist@ == (model::PlaylistView {
                        rows: all_retagged(
                            c.playlist@.rows,
                            same_file(resolved@, target@),
                            (Tags {
                                title: f.title@,
                                artist: f.artist@,
                                album_artist: Some(f.album_artist@),
                                album: f.album@,
                            }),
                        ),
                        ..c.playlist@
                    })
                },
                _ => r == 0 && final(c).playlist@ == c.playlist@,
            }
        },
{
    match (ctx, path) {
        (Some(c), Some(p)) => {
            let ghost before = c.playlist@.rows;
            let r = rescan_rows_by_path(&mut c.playlist, p, target, resolved, fresh);
            proof {
                crate::queue::lemma_still_live(c.queue@, before, c.playlist@.rows);
            }
            r
        },
        _ => 0,
    }
}

/// Which rows have a path.
pub open spec fn with_path(rows: Seq<model::TrackView>, path: Seq<char>) -> Seq<bool> {
    rows.map_values(|t: model::TrackView| t.path == path)
}

/// Writes display data over every entry with a path, as when a disc's tags are
/// edited. How many entries changed; none where the path or the title is missing
/// or empty.
pub fn sparkamp_playlist_update_entry_meta<B: AudioBackend>(
    ctx: Option<&mut SparkampCtx<B>>,
    path: Option<&str>,
    title: Option<&str>,
    artist: Option<&str>,
    album: Option<&str>,
) -> (r: usize)
    requires
        ctx matches Some(c) ==> c.wf(),
    ensures
        ctx is None ==> r == 0,
        ctx matches Some(c) ==> {
            &&& final(c).wf()
            &&& *final(c) == (SparkampCtx { playlist: final(c).playlist, ..*c })
            &&& if text::given(path).len() > 0 && text::given(title).len() > 0 {
                let hit = with_path(c.playlist@.rows, text::given(path));
                &&& r == hits(hit, hit.len() as int)
                &&& final(c).playlist@ == (model::PlaylistView {
                    rows: all_retagged(
                        c.playlist@.rows,
                        hit,
                        (Tags {
                            title: text::given(title),
                            artist: text::given(artist),
                            album_artist: None,
                            album: text::given(album),
                        }),
                    ),
                    ..c.playlist@
                })
            } else {
                r == 0 && *final(c) == *c
            }
        },
{
    let c = match ctx {
        Some(c) => c,
        None => return 0,
    };
    let path = or_empty(path);
    let title = or_empty(title);
    if path.as_str().unicode_len() == 0 || title.as_str().unicode_len() == 0 {
        return 0;
    }
    let artist = or_empty(artist);
    let album = or_empty(album);
    let n: usize = c.playlist.len();
    let mut hit: Vec<bool> = Vec::new();
    let mut i: usize = 0;
    while i < n
        invariant
            i <= n,
            n == c.playlist@.rows.len(),
            hit@.len() == i,
            forall|k: int| 0 <= k < i ==> #[trigger] hit@[k] == (c.playlist@.rows[k].path == path@),
        decreases n - i,
    {
        let is_in = match c.playlist.track(i) {
            Some(t) => same(t.path.as_str(), path.as_str()),
            None => false,
        };
        hit.push(is_in);
        i += 1;
    }
    assert(hit@ =~= with_path(c.playlist@.rows, path@));
    let ghost before = c.playlist@.rows;
    let r = retag_rows(
        &mut c.playlist,
        &hit,
        title.as_str(),
        artist.as_str(),
        None,
        album.as_str(),
    );
    proof {
        crate::queue::lemma_still_live(c.queue@, before, c.playlist@.rows);
    }
    r
}

/// Removes every entry, and with them the queue.
pub fn sparkamp_playlist_clear<B: AudioBackend>(ctx: Option<&mut SparkampCtx<B>>)
    requires
        ctx matches Some(c) ==> c.wf(),
    ensures
        ctx matches Some(c) ==> {
            &&& final(c).wf()
            &&& final(c).playlist@.rows == Seq::<model::TrackView>::empty()
            &&& final(c).playlist@.current == 0
            &&& final(c).playlist@.next_id == c.playlist@.next_id
            &&& final(c).queue@ == Seq::<u64>::empty()
            &&& *final(c) == (SparkampCtx {
                playlist: final(c).playlist,
                queue: final(c).queue,
                ..*c
            })
        },
{
    if let Some(c) = ctx {
        let ghost queued = c.queue@;
        c.playlist.clear();
        sync_queue_to_playlist(c);
        proof {
            let rows = c.playlist@.rows;
            assert(rows =~= Seq::<model::TrackView>::empty());
            crate::queue::law_pruning_keeps_exactly_the_live(queued, rows);
            if c.queue@.len() > 0 {
                assert(c.queue@.contains(c.queue@[0]));
                assert(crate::queue::is_live(rows, c.queue@[0]));
            }
            assert(c.queue@ =~= Seq::<u64>::empty());
        }
    }
}

/// The list once the entry at a row was removed.
pub open spec fn removed(p: model::PlaylistView, index: i32) -> model::PlaylistView {
    if playback::has_row(p, index) {
        model::PlaylistView {
            rows: p.rows.remove(index as int),
            current: if index < p.current {
                p.current - 1
            } else if p.current >= p.rows.len() - 1 && p.current > 0 {
                p.current - 1
            } else {
                p.current
            },
            ..p
        }
    } else {
        p
    }
}

/// Removes the entry at a row, and takes it off the queue.
pub fn sparkamp_playlist_remove<B: AudioBackend>(ctx: Option<&mut SparkampCtx<B>>, index: i32)
    requires
        ctx matches Some(c) ==> c.wf() && c.playlist@.room(c.playlist@.rows.len() as int),
    ensures
        ctx matches Some(c) ==> {
            &&& final(c).wf()
            &&& queue::in_line(*final(c), removed(c.playlist@, index), c.queue@)
            &&& *final(c) == (SparkampCtx {
                playlist: final(c).playlist,
                queue: final(c).queue,
                ..*c
            })
        },
{
    if let Some(c) = ctx {
        if let Some(i) = row_at(c, index) {
            c.playlist.remove(i);
        }
        sync_queue_to_playlist(c);
    }
}

/// Moves the entry at one row to another.
pub fn sparkamp_playlist_move<B: AudioBackend>(
    ctx: Option<&mut SparkampCtx<B>>,
    from: i32,
    to: i32,
)
    requires
        ctx matches Some(c) ==> c.wf(),
    ensures
        ctx matches Some(c) ==> {
            &&& final(c).wf()
            &&& final(c).playlist@ == (if playback::has_row(c.playlist@, from) && playback::has_row(
                c.playlist@,
                to,
            ) {
                model::reordered(
                    c.playlist@,
                    order::moved(c.playlist@.rows.len(), from as int, to as int),
                )
            } else {
                c.playlist@
            })
            &&& *final(c) == (SparkampCtx { playlist: final(c).playlist, ..*c })
        },
{
    if let Some(c) = ctx {
        if let Some(a) = row_at(c, from) {
            if let Some(b) = row_at(c, to) {
                let ghost before = c.playlist@.rows;
                c.playlist.move_track(a, b);
                proof {
                    crate::queue::lemma_live_in_any_order(c.queue@, before, c.playlist@.rows);
                }
            }
        }
    }
}

/// What a number of the interface sorts by.
pub open spec fn sort_key(kind: i32) -> SortKey {
    if kind == 0 {
        SortKey::Title
    } else if kind == 1 {
        SortKey::Artist
    } else if kind == 2 {
        SortKey::Album
    } else if kind == 3 {
        SortKey::Filename
    } else {
        SortKey::Path
    }
}

/// Sorts the list and forgets the shuffle history. The playing track stays
/// current.
pub fn sparkamp_playlist_sort<B: AudioBackend>(ctx: Option<&mut SparkampCtx<B>>, kind: i32)
    requires
        ctx matches Some(c) ==> c.wf(),
    ensures
        ctx matches Some(c) ==> {
            &&& final(c).wf()
            &&& model::sorted(final(c).playlist@, c.playlist@, sort_key(kind))
            &&& final(c).shuffle_state.enabled == c.shuffle_state.enabled
            &&& final(c).shuffle_state.played() == Seq::<usize>::empty()
            &&& final(c).shuffle_state.back == 0
            &&& *final(c) == (SparkampCtx {
                playlist: final(c).playlist,
                shuffle_state: final(c).shuffle_state,
                ..*c
            })
        },
{
    if let Some(c) = ctx {
        let key = if kind == 0 {
            SortKey::Title
        } else if kind == 1 {
            SortKey::Artist
        } else if kind == 2 {
            SortKey::Album
        } else if kind == 3 {
            SortKey::Filename
        } else {
            SortKey::Path
        };
        let ghost before = c.playlist@.rows;
        c.playlist.sort_by(key);
        proof {
            crate::queue::lemma_live_in_any_order(c.queue@, before, c.playlist@.rows);
        }
        c.shuffle_state.reset();
    }
}

/// Turns the list round and forgets the shuffle history.
pub fn sparkamp_playlist_reverse<B: AudioBackend>(ctx: Option<&mut SparkampCtx<B>>)
    requires
        ctx matches Some(c) ==> c.wf(),
    ensures
        ctx matches Some(c) ==> {
            &&& final(c).wf()
            &&& final(c).playlist@ == model::reordered(
                c.playlist@,
                order::reversed(c.playlist@.rows.len()),
            )
            &&& final(c).shuffle_state.enabled == c.shuffle_state.enabled
            &&& final(c).shuffle_state.played() == Seq::<usize>::empty()
            &&& final(c).shuffle_state.back == 0
            &&& *final(c) == (SparkampCtx {
                playlist: final(c).playlist,
                shuffle_state: final(c).shuffle_state,
                ..*c
            })
        },
{
    if let Some(c) = ctx {
        let ghost before = c.playlist@.rows;
        c.playlist.reverse();
        proof {
            crate::queue::lemma_live_in_any_order(c.queue@, before, c.playlist@.rows);
        }
        c.shuffle_state.reset();
    }
}

/// Shuffles the list by draws and forgets the shuffle history.
pub fn sparkamp_playlist_randomize<B: AudioBackend>(
    ctx: Option<&mut SparkampCtx<B>>,
    draws: &Vec<u64>,
)
    requires
        ctx matches Some(c) ==> c.wf(),
    ensures
        ctx matches Some(c) ==> {
            &&& final(c).wf()
            &&& final(c).playlist@ == model::reordered(
                c.playlist@,
                order::shuffled(
                    order::identity(c.playlist@.rows.len()),
                    draws@,
                    c.playlist@.rows.len() - 1,
                ),
            )
            &&& final(c).shuffle_state.enabled == c.shuffle_state.enabled
            &&& final(c).shuffle_state.played() == Seq::<usize>::empty()
            &&& final(c).shuffle_state.back == 0
            &&& *final(c) == (SparkampCtx {
                playlist: final(c).playlist,
                shuffle_state: final(c).shuffle_state,
                ..*c
            })
        },
{
    if let Some(c) = ctx {
        let ghost before = c.playlist@.rows;
        c.playlist.randomize(draws);
        proof {
            crate::queue::lemma_live_in_any_order(c.queue@, before, c.playlist@.rows);
        }
        c.shuffle_state.reset();
    }
}

/// How many rows the list has, cut to the width that crosses.
pub fn sparkamp_playlist_len<B: AudioBackend>(ctx: Option<&SparkampCtx<B>>) -> (r: i32)
    ensures
        r == (match ctx {
            Some(c) => c.playlist@.rows.len() as i32,
            None => 0,
        }),
{
    match ctx {
        Some(c) => crossing(c.playlist.len()),
        None => 0,
    }
}

/// The current row, or minus one where the list is empty.
pub fn sparkamp_playlist_current_index<B: AudioBackend>(ctx: Option<&SparkampCtx<B>>) -> (r: i32)
    ensures
        r == (match ctx {
            Some(c) if c.playlist@.rows.len() > 0 => c.playlist@.current as i32,
            _ => -1i32,
        }),
{
    match ctx {
        Some(c) => if c.playlist.is_empty() {
            -1
        } else {
            crossing(c.playlist.current_index())
        },
        None => -1,
    }
}

/// The title at a row; `None` where there is no such row.
pub fn sparkamp_playlist_get_title<B: AudioBackend>(ctx: Option<&SparkampCtx<B>>, index: i32) -> (r:
    Option<String>)
    ensures
        match r {
            Some(s) => ctx matches Some(c) && playback::has_row(c.playlist@, index) && s@ == text::c_text(
                c.playlist@.rows[index as int].title,
            ),
            None => ctx matches Some(c) ==> !playback::has_row(c.playlist@, index),
        },
{
    let c = match ctx {
        Some(c) => c,
        None => return None,
    };
    match row_at(c, index) {
        Some(i) => match c.playlist.track(i) {
            Some(t) => Some(to_c(t.title.as_str())),
            None => None,
        },
        None => None,
    }
}

/// The artist at a row; `None` where there is no such row.
pub fn sparkamp_playlist_get_artist<B: AudioBackend>(ctx: Option<&SparkampCtx<B>>, index: i32) -> (r:
    Option<String>)
    ensures
        match r {
            Some(s) => ctx matches Some(c) && playback::has_row(c.playlist@, index) && s@ == text::c_text(
                c.playlist@.rows[index as int].artist,
            ),
            None => ctx matches Some(c) ==> !playback::has_row(c.playlist@, index),
        },
{
    let c = match ctx {
        Some(c) => c,
        None => return None,
    };
    match row_at(c, index) {
        Some(i) => match c.playlist.track(i) {
            Some(t) => Some(to_c(t.artist.as_str())),
            None => None,
        },
        None => None,
    }
}

/// The album artist at a row; `None` where there is no such row.
pub fn sparkamp_playlist_get_album_artist<B: AudioBackend>(
    ctx: Option<&SparkampCtx<B>>,
    index: i32,
) -> (r: Option<String>)
    ensures
        match r {
            Some(s) => ctx matches Some(c) && playback::has_row(c.playlist@, index) && s@ == text::c_text(
                c.playlist@.rows[index as int].album_artist,
            ),
            None => ctx matches Some(c) ==> !playback::has_row(c.playlist@, index),
        },
{
    let c = match ctx {
        Some(c) => c,
        None => return None,
    };
    match row_at(c, index) {
        Some(i) => match c.playlist.track(i) {
            Some(t) => Some(to_c(t.album_artist.as_str())),
            None => None,
        },
        None => None,
    }
}

/// The length at a row in nanoseconds, where it is known.
pub fn sparkamp_playlist_get_duration<B: AudioBackend>(ctx: Option<&SparkampCtx<B>>, index: i32) -> (r:
    Option<u64>)
    ensures
        r == (match ctx {
            Some(c) if playback::has_row(c.playlist@, index) => c.playlist@.rows[index as int].duration,
            _ => None,
        }),
{
    let c = match ctx {
        Some(c) => c,
        None => return None,
    };
    match row_at(c, index) {
        Some(i) => match c.playlist.track(i) {
            Some(t) => t.duration,
            None => None,
        },
        None => None,
    }
}

/// Marks the entry at a row as missing or unreadable.
pub fn sparkamp_playlist_mark_broken<B: AudioBackend>(ctx: Option<&mut SparkampCtx<B>>, index: i32)
    requires
        ctx matches Some(c) ==> c.wf(),
    ensures
        ctx matches Some(c) ==> {
            &&& final(c).wf()
            &&& *final(c) == (SparkampCtx { playlist: final(c).playlist, ..*c })
            &&& final(c).playlist@ == (if playback::has_row(c.playlist@, index) {
                model::PlaylistView {
                    rows: c.playlist@.rows.update(
                        index as int,
                        model::TrackView { broken: true, ..c.playlist@.rows[index as int] },
                    ),
                    ..c.playlist@
                }
            } else {
                c.playlist@
            })
        },
{
    if let Some(c) = ctx {
        if let Some(i) = row_at(c, index) {
            if let Some(t) = c.playlist.track(i) {
                let mut t = t.clone();
                t.broken = true;
                let ghost before = c.playlist@.rows;
                c.playlist.set_track(i, t);
                proof {
                    crate::queue::lemma_still_live(c.queue@, before, c.playlist@.rows);
                }
            }
        }
    }
}

/// One where the entry at a row is marked broken.
pub fn sparkamp_playlist_is_broken<B: AudioBackend>(ctx: Option<&SparkampCtx<B>>, index: i32) -> (r:
    i32)
    ensures
        r == (match ctx {
            Some(c) if playback::has_row(c.playlist@, index) && c.playlist@.rows[index as int].broken => 1,
            _ => 0int,
        }),
{
    let c = match ctx {
        Some(c) => c,
        None => return 0,
    };
    match row_at(c, index) {
        Some(i) => match c.playlist.track(i) {
            Some(t) => if t.broken {
                1
            } else {
                0
            },
            None => 0,
        },
        None => 0,
    }
}

/// One where the entry at a row is read-only. A row on a disc always is; what
/// the file system says counts for any other.
pub fn sparkamp_playlist_is_read_only<B: AudioBackend>(
    ctx: Option<&SparkampCtx<B>>,
    index: i32,
    on_optical: bool,
    read_only: bool,
) -> (r: i32)
    ensures
        r == (match ctx {
            Some(c) if playback::has_row(c.playlist@, index) && (on_optical || read_only) => 1,
            _ => 0int,
        }),
{
    let c = match ctx {
        Some(c) => c,
        None => return 0,
    };
    if row_at(c, index).is_none() {
        return 0;
    }
    if on_optical || read_only {
        1
    } else {
        0
    }
}

/// What a jump to a row leaves of the session it found: the pending stop after
/// the current track is cancelled and the old length forgotten in any case; where
/// the row is there it is played and goes into the shuffle history.
pub open spec fn jumped<B: AudioBackend>(
    after: SparkampCtx<B>,
    before: SparkampCtx<B>,
    index: i32,
    gains: Gains,
    said: Option<String>,
) -> bool {
    &&& after == (SparkampCtx {
        player: after.player,
        playlist: after.playlist,
        shuffle_state: after.shuffle_state,
        last_known_duration: None,
        ..before
    })
    &&& exists|mid: engine::Player<B>|
        {
            &&& #[trigger] playback::disarmed(mid, before.player)
            &&& if playback::has_row(before.playlist@, index) {
                &&& after.playlist@ == (model::PlaylistView {
                    current: index as int,
                    ..before.playlist@
                })
                &&& ffi::primed_saying(
                    after.player,
                    mid,
                    model::uri_of(before.playlist@.rows[index as int].path),
                    ffi::gain_in(before.config.playback, gains),
                    said,
                )
                &&& after.shuffle_state.recorded(&before.shuffle_state, index as usize)
            } else {
                &&& after.playlist == before.playlist
                &&& after.player == mid
                &&& after.shuffle_state == before.shuffle_state
                &&& said is None
            }
        }
}

/// Jumps to a row, loads it and plays it.
pub fn sparkamp_playlist_jump<B: AudioBackend>(
    ctx: Option<&mut SparkampCtx<B>>,
    index: i32,
    gains: Gains,
) -> (r: Option<String>)
    requires
        ctx matches Some(c) ==> c.wf(),
    ensures
        ctx is None ==> r is None,
        ctx matches Some(c) ==> final(c).wf() && jumped(*final(c), *c, index, gains, r),
{
    let c = match ctx {
        Some(c) => c,
        None => return None,
    };
    let ghost before = *c;
    c.last_known_duration = None;
    c.player.set_stop_after_current(false);
    let ghost mid = c.player;
    assert(playback::disarmed(mid, before.player));
    match row_at(c, index) {
        Some(i) => {
            let _ = c.playlist.jump_to(i);
            assert(c.playlist@.current_row() == Some(before.playlist@.rows[index as int]));
            let r = start_current(c, gains);
            c.shuffle_state.record_played(i);
            r
        },
        None => None,
    }
}

/// However the player, the queue and the list stood, choosing a track to play
/// cancels a stop that was armed for the end of the one before.
pub proof fn law_jump_cancels_stop_after_current<B: AudioBackend>(
    after: SparkampCtx<B>,
    before: SparkampCtx<B>,
    index: i32,
    gains: Gains,
    said: Option<String>,
)
    requires
        jumped(after, before, index, gains, said),
    ensures
        !after.player.settings().stop_after_current,
{
    let mid = choose|mid: engine::Player<B>|
        {
            &&& #[trigger] playback::disarmed(mid, before.player)
            &&& if playback::has_row(before.playlist@, index) {
                &&& after.playlist@ == (model::PlaylistView {
                    current: index as int,
                    ..before.playlist@
                })
                &&& ffi::primed_saying(
                    after.player,
                    mid,
                    model::uri_of(before.playlist@.rows[index as int].path),
                    ffi::gain_in(before.config.playback, gains),
                    said,
                )
                &&& after.shuffle_state.recorded(&before.shuffle_state, index as usize)
            } else {
                &&& after.playlist == before.playlist
                &&& after.player == mid
                &&& after.shuffle_state == before.shuffle_state
                &&& said is None
            }
        };
    assert(!mid.settings().stop_after_current);
}

/// The entry whose tags are to be read in the background: its id, which the
/// result is to carry, and its path.
pub fn sparkamp_scan_metadata<B: AudioBackend>(ctx: Option<&SparkampCtx<B>>, index: i32) -> (r: Option<
    (u64, String),
>)
    ensures
        match r {
            Some((id, path)) => ctx matches Some(c) && playback::has_row(c.playlist@, index) && id
                == c.playlist@.rows[index as int].id && path@ == c.playlist@.rows[index as int].path,
            None => ctx matches Some(c) ==> !playback::has_row(c.playlist@, index),
        },
{
    playback::sparkamp_probe_duration(ctx, index)
}

/// How many rows changed since this was last asked.
pub fn sparkamp_take_playlist_dirty_count<B: AudioBackend>(ctx: Option<&mut SparkampCtx<B>>) -> (r: u32)
    ensures
        ctx is None ==> r == 0,
        ctx matches Some(c) ==> r == c.dirty_count && *final(c) == (SparkampCtx {
            dirty_count: 0,
            ..*c
        }),
{
    match ctx {
        Some(c) => {
            let n: u32 = c.dirty_count;
            c.dirty_count = 0;
            n
        },
        None => 0,
    }
}

/// The path at a row; `None` where there is no such row or the path cannot
/// cross as a C string.
pub fn sparkamp_playlist_get_path<B: AudioBackend>(ctx: Option<&SparkampCtx<B>>, index: i32) -> (r:
    Option<String>)
    ensures
        match r {
            Some(s) => ctx matches Some(c) && playback::has_row(c.playlist@, index) && s@
                == c.playlist@.rows[index as int].path && !s@.contains('\0'),
            None => ctx matches Some(c) ==> !playback::has_row(c.playlist@, index)
                || c.playlist@.rows[index as int].path.contains('\0'),
        },
{
    let c = match ctx {
        Some(c) => c,
        None => return None,
    };
    match row_at(c, index) {
        Some(i) => match c.playlist.track(i) {
            Some(t) => if fits_c(t.path.as_str()) {
                Some(t.path.clone())
            } else {
                None
            },
            None => None,
        },
        None => None,
    }
}

/// Whether an add is to clear the list first: always for one mode, never for
/// another, and as is set for any other.
pub open spec fn replaces(behavior: PlaylistAddBehavior, mode: i32) -> bool {
    if mode == 1 {
        false
    } else if mode == 2 {
        true
    } else {
        behavior == PlaylistAddBehavior::Replace
    }
}

/// One where an add is to clear the list first.
pub fn sparkamp_should_replace_on_add<B: AudioBackend>(ctx: Option<&SparkampCtx<B>>, mode: i32) -> (r:
    i32)
    ensures
        r == (match ctx {
            Some(c) if replaces(c.config.behavior.playlist_add_behavior, mode) => 1,
            _ => 0int,
        }),
{
    match ctx {
        Some(c) => {
            let replace = if mode == 1 {
                false
            } else if mode == 2 {
                true
            } else {
                c.config.behavior.playlist_add_behavior == PlaylistAddBehavior::Replace
            };
            if replace {
                1
            } else {
                0
            }
        },
        None => 0,
    }
}

/// Sorting by a number of the interface: nought by title, one by artist, two by album,
/// three by the end of the path and any other by the path, as the rows of the sorted
/// list themselves have it.
pub proof fn law_each_kind_sorts_by_its_own_field(
    before: model::PlaylistView,
    after: model::PlaylistView,
    kind: i32,
    a: int,
    b: int,
)
    requires
        model::sorted(after, before, sort_key(kind)),
        0 <= a < b < after.rows.len(),
    ensures
        ({
            let x = after.rows[a];
            let y = after.rows[b];
            &&& kind == 0 ==> text::text_before(x.title, y.title)
            &&& kind == 1 ==> text::text_before(x.artist, y.artist)
            &&& kind == 2 ==> text::text_before(x.album, y.album)
            &&& kind == 3 ==> text::text_before(model::file_name(x.path), model::file_name(y.path))
            &&& kind < 0 || kind > 3 ==> text::text_before(x.path, y.path)
        }),
{
    model::law_a_sorted_list_stands_in_order(before, after, sort_key(kind), a, b);
}

/// Whatever the list is sorted by, every row is still there and the current track is the
/// current track.
pub proof fn law_sorting_keeps_the_rows_and_the_current_track(
    before: model::PlaylistView,
    after: model::PlaylistView,
    kind: i32,
    i: int,
)
    requires
        before.wf(),
        0 <= before.current,
        model::sorted(after, before, sort_key(kind)),
        0 <= i < before.rows.len(),
    ensures
        after.rows.len() == before.rows.len(),
        after.rows.contains(before.rows[i]),
        after.current_row() == before.current_row(),
{
    let o = choose|o: Seq<usize>|
        {
            &&& order::is_order(o, before.rows.len() as int)
            &&& #[trigger] order::sorts(o, model::sort_texts(before.rows, sort_key(kind)))
            &&& after == model::reordered(before, o)
        };
    model::law_reorder_keeps_the_current_track(before, o);
}

/// Removing a row takes out that row and no other, and the current track stays current.
/// Where it is that track that goes, the row behind it is current, or the one before it
/// where it was the last.
pub proof fn law_removing_a_row_keeps_the_others(p: model::PlaylistView, index: i32, k: int)
    requires
        0 <= p.current < p.rows.len(),
        0 <= k < p.rows.len() - 1,
        0 <= index < p.rows.len(),
    ensures
        ({
            let q = removed(p, index);
            &&& q.rows.len() == p.rows.len() - 1
            &&& q.rows[k] == p.rows[if k < index {
                k
            } else {
                k + 1
            }]
            &&& index != p.current ==> q.current_row() == p.current_row()
            &&& index == p.current && index + 1 < p.rows.len() ==> q.current_row() == Some(
                p.rows[index + 1],
            )
            &&& index == p.current && index + 1 == p.rows.len() ==> q.current_row() == Some(
                p.rows[index - 1],
            )
        }),
{
}

/// An index that names no row removes nothing.
pub proof fn law_an_index_past_the_list_removes_nothing(p: model::PlaylistView, index: i32)
    requires
        index < 0 || index >= p.rows.len(),
    ensures
        removed(p, index) == p,
{
}

/// What is added stands behind what was there, in its order, and carries its own data
/// and an id that no row had.
pub proof fn law_what_is_added_stands_last(p: model::PlaylistView, tracks: Seq<Track>, k: int)
    requires
        p.wf(),
        p.room(tracks.len() as int),
        0 <= k < tracks.len(),
    ensures
        ({
            let q = added(p, tracks);
            let new = q.rows[p.rows.len() + k];
            &&& q.rows.len() == p.rows.len() + tracks.len()
            &&& q.rows.subrange(0, p.rows.len() as int) == p.rows
            &&& q.current == p.current
            &&& new.path == tracks[k].path@
            &&& new.title == tracks[k].title@
            &&& new.artist == tracks[k].artist@
            &&& new.album_artist == tracks[k].album_artist@
            &&& new.album == tracks[k].album@
            &&& new.duration == tracks[k].duration
            &&& new.id == p.next_id + k
            &&& q.next_id == p.next_id + tracks.len()
            &&& forall|i: int| 0 <= i < p.rows.len() ==> (#[trigger] p.rows[i]).id != new.id
        }),
{
    let q = added(p, tracks);
    assert(q.rows.subrange(0, p.rows.len() as int) =~= p.rows);
}

/// A disc entry shows what it was given and cannot be written; its length is in seconds,
/// and one of none or less is not known.
pub proof fn law_a_disc_entry_shows_what_it_was_given(
    path: Seq<char>,
    title: Seq<char>,
    artist: Seq<char>,
    album: Seq<char>,
    secs: i32,
    id: u64,
)
    ensures
        ({
            let e = disc_entry(path, title, artist, album, secs, id);
            &&& e.path == path && e.title == title && e.artist == artist && e.album == album
            &&& e.album_artist.len() == 0
            &&& e.id == id
            &&& e.read_only
            &&& !e.broken
            &&& secs > 0 ==> (e.duration matches Some(d) && d / 1_000_000_000 == secs && d
                % 1_000_000_000 == 0)
            &&& secs <= 0 ==> e.duration is None
        }),
{
}

/// The rows among indices are those that are not negative, in their order.
pub proof fn law_negative_indices_name_no_row(a: Seq<i32>, b: Seq<i32>, x: i32)
    ensures
        rows_among(a + b) == rows_among(a) + rows_among(b),
        x >= 0 ==> rows_among(seq![x]) == seq![x as usize],
        x < 0 ==> rows_among(seq![x]) == Seq::<usize>::empty(),
    decreases b.len(),
{
    let one = seq![x];
    assert(one.drop_last() =~= Seq::<i32>::empty());
    assert(rows_among(Seq::<i32>::empty()) =~= Seq::<usize>::empty());
    assert(one.last() == x);
    if x >= 0 {
        assert(rows_among(one) =~= seq![x as usize]);
    }
    if b.len() == 0 {
        assert(a + b =~= a);
        assert(rows_among(a + b) =~= rows_among(a) + rows_among(b));
    } else {
        law_negative_indices_name_no_row(a, b.drop_last(), x);
        assert((a + b).drop_last() =~= a + b.drop_last());
        assert((a + b).last() == b.last());
        assert(rows_among(a + b) =~= rows_among(a) + rows_among(b));
    }
}

/// Writing tags over rows changes those that are hit and no other, and of them nothing
/// but the tags: path, length, marks and identity stay, and so does the album artist
/// where none is given.
pub proof fn law_retagging_changes_only_tags(
    rows: Seq<model::TrackView>,
    hit: Seq<bool>,
    tags: Tags,
    i: int,
)
    requires
        hit.len() == rows.len(),
        0 <= i < rows.len(),
    ensures
        ({
            let after = all_retagged(rows, hit, tags);
            &&& after.len() == rows.len()
            &&& !hit[i] ==> after[i] == rows[i]
            &&& after[i].path == rows[i].path
            &&& after[i].duration == rows[i].duration
            &&& after[i].broken == rows[i].broken
            &&& after[i].read_only == rows[i].read_only
            &&& after[i].id == rows[i].id
            &&& hit[i] ==> {
                &&& after[i].title == tags.title
                &&& after[i].artist == tags.artist
                &&& after[i].album == tags.album
                &&& tags.album_artist matches Some(a) ==> after[i].album_artist == a
                &&& tags.album_artist is None ==> after[i].album_artist == rows[i].album_artist
            }
        }),
{
}

/// The number of rows hit counts each of them once.
pub proof fn law_hits_count_each_row_once(hit: Seq<bool>, n: int)
    requires
        0 <= n < hit.len(),
    ensures
        hits(hit, 0) == 0,
        hits(hit, n + 1) - hits(hit, n) == (if hit[n] {
            1int
        } else {
            0int
        }),
        0 <= hits(hit, n) <= n,
    decreases n,
{
    if n > 0 {
        law_hits_count_each_row_once(hit, n - 1);
    }
}

/// A row stands for a file where it resolves to it, and for a path where that is its
/// own.
pub proof fn law_rows_are_hit_by_what_they_hold(
    resolved: Seq<String>,
    rows: Seq<model::TrackView>,
    target: Seq<char>,
    i: int,
)
    ensures
        0 <= i < resolved.len() ==> same_file(resolved, target)[i] == (resolved[i]@ == target),
        same_file(resolved, target).len() == resolved.len(),
        0 <= i < rows.len() ==> with_path(rows, target)[i] == (rows[i].path == target),
        with_path(rows, target).len() == rows.len(),
{
}

/// A jump makes the row that was asked for current, plays it and puts it last in the
/// shuffle history; what is loaded is what is then current. An index that names no row
/// leaves the current row alone.
pub proof fn law_a_jump_plays_the_row_it_was_given<B: AudioBackend>(
    after: SparkampCtx<B>,
    before: SparkampCtx<B>,
    index: i32,
    gains: Gains,
    said: Option<String>,
)
    requires
        jumped(after, before, index, gains, said),
    ensures
        after.playlist@.rows == before.playlist@.rows,
        after.queue == before.queue,
        0 <= index < before.playlist@.rows.len() ==> {
            &&& after.playlist@.current == index
            &&& after.shuffle_state.played().len() == before.shuffle_state.played().len() + 1
            &&& after.shuffle_state.played().last() == index
            &&& after.playlist@.current_row() matches Some(t)
            &&& {
                let set = before.config.playback;
                let plays_with = |gain: Option<i64>|
                    exists|mid: engine::Player<B>| #[trigger]
                        ffi::primed_saying(after.player, mid, model::uri_of(t.path), gain, said);
                &&& set.replaygain.source == config::RgSource::Album ==> plays_with(gains.album)
                &&& set.replaygain.source == config::RgSource::Track ==> plays_with(gains.track)
                &&& set.replaygain.source == config::RgSource::Automatic && set.shuffle_enabled
                    ==> plays_with(gains.track)
                &&& set.replaygain.source == config::RgSource::Automatic && !set.shuffle_enabled
                    ==> plays_with(gains.album)
            }
            &&& after.last_known_duration is None
        },
        index < 0 || index >= before.playlist@.rows.len() ==> {
            &&& after.playlist == before.playlist
            &&& after.shuffle_state == before.shuffle_state
            &&& after.player.audio() == before.player.audio()
        },
{
}

/// An addition that says whether to append or to replace is taken at its word; any other goes
/// by the configuration.
pub proof fn law_an_addition_is_taken_at_its_word(behavior: PlaylistAddBehavior, mode: i32)
    ensures
        mode == 1 ==> !replaces(behavior, mode),
        mode == 2 ==> replaces(behavior, mode),
        mode != 1 && mode != 2 && behavior == PlaylistAddBehavior::Replace ==> replaces(behavior, mode),
        mode != 1 && mode != 2 && behavior == PlaylistAddBehavior::Append ==> !replaces(behavior, mode),
{
}

} // verus!
