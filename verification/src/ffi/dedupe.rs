//! The search for duplicates.

use crate::buffer;
use crate::buffer::bytes_to_buffer;
use crate::engine::backend::AudioBackend;
use crate::ffi::queue::sync_queue_to_playlist;
use crate::ffi::SparkampCtx;
use crate::media_library;
use crate::media_library::{owned_text, LibTrack};
use crate::model;
use crate::model::Track;
use crate::queue;
use crate::text::CText;
use vstd::prelude::*;

verus! {

/// How sure it is that the tracks of a group are duplicates.
#[derive(Debug, Clone, Copy, PartialEq, Eq, Structural)]
pub enum DupeConfidence {
    Probable,
    LessLikely,
}

/// The number of a confidence.
pub open spec fn confidence_code(c: DupeConfidence) -> int {
    match c {
        DupeConfidence::Probable => 0,
        DupeConfidence::LessLikely => 1,
    }
}

/// A group of files that may be duplicates.
pub struct DupeGroup {
    pub confidence: DupeConfidence,
    pub tracks: Vec<LibTrack>,
}

/// One file of a group as it crosses to C.
pub struct SparkampDedupTrack {
    pub path: [u8; 512],
    pub title: [u8; 256],
    pub artist: [u8; 256],
    /// In nanoseconds, zero where it is not known.
    pub duration: u64,
}

impl SparkampDedupTrack {
    /// What crosses of a file.
    pub open spec fn stands_for(&self, t: &LibTrack) -> bool {
        &&& self.path@ == buffer::closed_bytes(t.path@, 512)
        &&& self.title@ == buffer::closed_bytes(t.shown_title(), 256)
        &&& self.artist@ == buffer::closed_bytes(media_library::text_of(t.artist), 256)
        &&& self.duration == (match t.length {
            Some(ns) => ns,
            None => 0,
        })
    }

    /// What crosses of a file.
    pub fn from_lib_track(t: &LibTrack) -> (r: SparkampDedupTrack)
        ensures
            r.stands_for(t),
    {
        let title = t.title_shown();
        let artist = owned_text(&t.artist);
        SparkampDedupTrack {
            path: bytes_to_buffer::<512>(t.path.as_str()),
            title: bytes_to_buffer::<256>(title.as_str()),
            artist: bytes_to_buffer::<256>(artist.as_str()),
            duration: match t.length {
                Some(ns) => ns,
                None => 0,
            },
        }
    }
}

/// A group as it crosses to C.
pub struct SparkampDedupGroup {
    /// Zero where they probably are duplicates, one where that is less likely.
    pub confidence: i32,
    pub tracks: Vec<SparkampDedupTrack>,
}

impl SparkampDedupGroup {
    /// What crosses of a group.
    pub open spec fn stands_for(&self, g: &DupeGroup) -> bool {
        &&& self.confidence == confidence_code(g.confidence)
        &&& self.tracks@.len() == g.tracks@.len()
        &&& forall|k: int|
            0 <= k < g.tracks@.len() ==> (#[trigger] self.tracks@[k]).stands_for(&g.tracks@[k])
    }

    /// What crosses of a group.
    pub fn from_group(g: &DupeGroup) -> (r: SparkampDedupGroup)
        ensures
            r.stands_for(g),
    {
        let mut tracks: Vec<SparkampDedupTrack> = Vec::new();
        let mut i: usize = 0;
        while i < g.tracks.len()
            invariant
                i <= g.tracks@.len(),
                tracks@.len() == i,
                forall|k: int| 0 <= k < i ==> (#[trigger] tracks@[k]).stands_for(&g.tracks@[k]),
            decreases g.tracks@.len() - i,
        {
            tracks.push(SparkampDedupTrack::from_lib_track(&g.tracks[i]));
            i += 1;
        }
        SparkampDedupGroup {
            confidence: match g.confidence {
                DupeConfidence::Probable => 0,
                DupeConfidence::LessLikely => 1,
            },
            tracks,
        }
    }
}

/// A search for duplicates: whether it was asked to stop, and how many groups it
/// has handed out.
#[derive(Debug, Clone, Copy, PartialEq, Eq, Structural)]
pub struct SparkampDedupCtx {
    pub cancel: bool,
    pub total: i32,
}

/// Begins a search: nothing while the library is closed, or where its tracks
/// could not be read.
pub fn sparkamp_dedup_start<B: AudioBackend>(
    ctx: Option<&SparkampCtx<B>>,
    open: bool,
    tracks_read: bool,
) -> (r: Option<SparkampDedupCtx>)
    ensures
        match r {
            Some(d) => ctx is Some && open && tracks_read && d == (SparkampDedupCtx {
                cancel: false,
                total: 0,
            }),
            None => ctx is None || !open || !tracks_read,
        },
{
    if ctx.is_some() && open && tracks_read {
        Some(SparkampDedupCtx { cancel: false, total: 0 })
    } else {
        None
    }
}

/// What a search does next.
pub enum DedupStep {
    /// A group is to be handed to the caller.
    HandOut(SparkampDedupGroup),
    /// The search is over; so many groups were handed out.
    Done(i32),
}

/// What a search does next: it hands out the groups in turn, until it is asked to
/// stop or none is left, and then says how many there were.
pub fn dedup_next(search: &mut SparkampDedupCtx, groups: &Vec<DupeGroup>) -> (r: DedupStep)
    requires
        0 <= old(search).total,
        groups@.len() <= i32::MAX,
    ensures
        match r {
            DedupStep::HandOut(g) => {
                &&& !old(search).cancel && old(search).total < groups@.len()
                &&& g.stands_for(&groups@[old(search).total as int])
                &&& *final(search) == (SparkampDedupCtx {
                    total: (old(search).total + 1) as i32,
                    ..*old(search)
                })
            },
            DedupStep::Done(n) => {
                &&& old(search).cancel || old(search).total >= groups@.len()
                &&& n == old(search).total
                &&& *final(search) == *old(search)
            },
        },
{
    let at: usize = search.total as usize;
    if search.cancel || at >= groups.len() {
        return DedupStep::Done(search.total);
    }
    search.total = search.total + 1;
    DedupStep::HandOut(SparkampDedupGroup::from_group(&groups[at]))
}

/// Asks a search to stop.
pub fn sparkamp_dedup_cancel(search: Option<&mut SparkampDedupCtx>)
    ensures
        search matches Some(s) ==> *final(s) == (SparkampDedupCtx { cancel: true, ..*s }),
{
    if let Some(s) = search {
        s.cancel = true;
    }
}

/// The rows that can be made of a list of paths. `made` is the row of each path,
/// where one could be made; nulls and what is not UTF-8 are passed over.
pub open spec fn rows_made(paths: Seq<CText>, made: Seq<Option<Track>>) -> Seq<model::TrackView>
    decreases paths.len(),
{
    if paths.len() == 0 {
        Seq::empty()
    } else {
        let head = rows_made(paths.drop_last(), made);
        match (paths.last(), made[paths.len() - 1]) {
            (CText::Text(_), Some(t)) => head.push(model::TrackView { id: 0, ..t@ }),
            _ => head,
        }
    }
}

fn push_rows<B: AudioBackend>(
    c: &mut SparkampCtx<B>,
    paths: &Vec<CText>,
    made: &Vec<Option<Track>>,
)
    requires
        old(c).sound(),
        paths@.len() == made@.len(),
    ensures
        final(c).sound(),
        final(c).playlist@ == (model::PlaylistView {
            rows: old(c).playlist@.rows + rows_made(paths@, made@),
            ..old(c).playlist@
        }),
        rows_made(paths@, made@).len() <= paths@.len(),
        *final(c) == (SparkampCtx { playlist: final(c).playlist, ..*old(c) }),
{
    let ghost before = *c;
    let mut i: usize = 0;
    assert(paths@.subrange(0, 0) =~= Seq::empty());
    assert(before.playlist@.rows + Seq::<model::TrackView>::empty() =~= before.playlist@.rows);
    while i < paths.len()
        invariant
            i <= paths@.len(),
            paths@.len() == made@.len(),
            c.sound(),
            rows_made(paths@.subrange(0, i as int), made@).len() <= i,
            c.playlist@ == (model::PlaylistView {
                rows: before.playlist@.rows + rows_made(paths@.subrange(0, i as int), made@),
                ..before.playlist@
            }),
            *c == (SparkampCtx { playlist: c.playlist, ..before }),
        decreases paths@.len() - i,
    {
        let ghost head = paths@.subrange(0, i + 1);
        assert(head.drop_last() =~= paths@.subrange(0, i as int));
        if let (CText::Text(_), Some(t)) = (&paths[i], &made[i]) {
            c.playlist.push(t.clone());
            assert(c.playlist@.rows =~= before.playlist@.rows + rows_made(head, made@));
        }
        i += 1;
    }
    assert(paths@.subrange(0, i as int) =~= paths@);
}

/// Adds the files of a group to the list. A missing or empty list of paths
/// changes nothing.
pub fn sparkamp_dedup_add_to_playlist<B: AudioBackend>(
    ctx: Option<&mut SparkampCtx<B>>,
    paths: &Vec<CText>,
    made: &Vec<Option<Track>>,
)
    requires
        ctx matches Some(c) ==> c.wf(),
        paths@.len() == made@.len(),
    ensures
        ctx matches Some(c) ==> {
            &&& final(c).wf()
            &&& final(c).playlist@ == (model::PlaylistView {
                rows: c.playlist@.rows + rows_made(paths@, made@),
                ..c.playlist@
            })
            &&& *final(c) == (SparkampCtx { playlist: final(c).playlist, ..*c })
        },
{
    if let Some(c) = ctx {
        let ghost before = c.playlist@.rows;
        push_rows(c, paths, made);
        proof {
            queue::lemma_still_live(c.queue@, before, c.playlist@.rows);
        }
    }
}

/// Puts the files of a group in place of the list, with the first as the current
/// one; whatever was queued of the old list goes. A missing or empty list of
/// paths changes nothing.
pub fn sparkamp_dedup_replace_playlist<B: AudioBackend>(
    ctx: Option<&mut SparkampCtx<B>>,
    paths: &Vec<CText>,
    made: &Vec<Option<Track>>,
)
    requires
        ctx matches Some(c) ==> c.wf() && c.playlist@.room(paths@.len() as int),
        paths@.len() == made@.len(),
    ensures
        ctx matches Some(c) ==> {
            &&& final(c).wf()
            &&& if paths@.len() == 0 {
                *final(c) == *c
            } else {
                &&& crate::ffi::queue::in_line(
                    *final(c),
                    (model::PlaylistView { rows: rows_made(paths@, made@), current: 0, ..c.playlist@ }),
                    c.queue@,
                )
                &&& *final(c) == (SparkampCtx {
                    playlist: final(c).playlist,
                    queue: final(c).queue,
                    ..*c
                })
            }
        },
{
    if let Some(c) = ctx {
        if paths.len() == 0 {
            return;
        }
        c.playlist.clear();
        push_rows(c, paths, made);
        assert(Seq::<model::TrackView>::empty() + rows_made(paths@, made@) =~= rows_made(
            paths@,
            made@,
        ));
        sync_queue_to_playlist(c);
    }
}

/// The folder to open for a file: the one that holds it, as `parent` says, and
/// the path itself where it has none.
pub fn sparkamp_open_file_location(path: &CText, parent: Option<&str>) -> (r: Option<String>)
    ensures
        match (r, path) {
            (Some(dir), CText::Text(p)) => dir@ == (match parent {
                Some(d) => d@,
                None => p@,
            }),
            (None, CText::Text(_)) => false,
            (Some(_), _) => false,
            (None, _) => true,
        },
{
    match path {
        CText::Text(p) => match parent {
            Some(d) => Some(d.to_owned()),
            None => Some(p.clone()),
        },
        _ => None,
    }
}

/// The rows of two lists of paths, one behind the other, are those of each; a path whose row
/// could be made gives that row, and any other gives none.
pub proof fn law_each_path_gives_its_own_row(
    a: Seq<CText>,
    b: Seq<CText>,
    made_a: Seq<Option<Track>>,
    made_b: Seq<Option<Track>>,
)
    requires
        a.len() == made_a.len(),
        b.len() == made_b.len(),
    ensures
        rows_made(a + b, made_a + made_b) == rows_made(a, made_a) + rows_made(b, made_b),
        b.len() == 1 && b[0] is Text && made_b[0] is Some ==> {
            &&& rows_made(b, made_b).len() == 1
            &&& rows_made(b, made_b)[0].path == made_b[0]->0@.path
            &&& rows_made(b, made_b)[0].title == made_b[0]->0@.title
            &&& rows_made(b, made_b)[0] == (model::TrackView { id: 0, ..made_b[0]->0@ })
        },
        b.len() == 1 && !(b[0] is Text && made_b[0] is Some) ==> rows_made(b, made_b).len() == 0,
    decreases b.len(),
{
    let made = made_a + made_b;
    if b.len() == 0 {
        assert(a + b =~= a);
        assert(made =~= made_a);
        assert(rows_made(b, made_b) =~= Seq::empty());
        assert(rows_made(a, made_a) + Seq::<model::TrackView>::empty() =~= rows_made(a, made_a));
    } else {
        assert(b.drop_last().len() == 0 ==> rows_made(b.drop_last(), made_b) =~= Seq::empty());
        law_each_path_gives_its_own_row(a, b.drop_last(), made_a, made_b.drop_last());
        assert((a + b).drop_last() =~= a + b.drop_last());
        lemma_rows_need_no_more(a + b.drop_last(), made, made_a + made_b.drop_last());
        lemma_rows_need_no_more(b.drop_last(), made_b, made_b.drop_last());
        assert(made[(a + b).len() - 1] == made_b[b.len() - 1]);
        assert((a + b).last() == b.last());
        assert(rows_made(a + b, made) =~= rows_made(a, made_a) + rows_made(b, made_b));
    }
}

proof fn lemma_rows_need_no_more(
    paths: Seq<CText>,
    made: Seq<Option<Track>>,
    same: Seq<Option<Track>>,
)
    requires
        paths.len() <= made.len(),
        paths.len() <= same.len(),
        forall|i: int| 0 <= i < paths.len() ==> made[i] == #[trigger] same[i],
    ensures
        rows_made(paths, made) == rows_made(paths, same),
    decreases paths.len(),
{
    if paths.len() > 0 {
        lemma_rows_need_no_more(paths.drop_last(), made, same);
        assert(made[paths.len() - 1] == same[paths.len() - 1]);
    }
}

/// A group crosses with the files that it holds, each with its own path, title and artist
/// and with its length, and says by its number how sure it is.
pub proof fn law_a_group_crosses_with_its_own_files(c: SparkampDedupGroup, g: DupeGroup, k: int)
    requires
        c.stands_for(&g),
        0 <= k < g.tracks@.len(),
    ensures
        c.tracks@.len() == g.tracks@.len(),
        c.tracks@[k].path@ == buffer::closed_bytes(g.tracks@[k].path@, 512),
        g.tracks@[k].artist matches Some(a) ==> c.tracks@[k].artist@ == buffer::closed_bytes(a@, 256),
        g.tracks@[k].title matches Some(t) ==> c.tracks@[k].title@ == buffer::closed_bytes(t@, 256),
        g.tracks@[k].title is None ==> c.tracks@[k].title@ == buffer::closed_bytes(
            g.tracks@[k].filename@,
            256,
        ),
        g.tracks@[k].length matches Some(ns) ==> c.tracks@[k].duration == ns,
        g.tracks@[k].length is None ==> c.tracks@[k].duration == 0,
        c.confidence == 0 <==> g.confidence == DupeConfidence::Probable,
        c.confidence == 1 <==> g.confidence == DupeConfidence::LessLikely,
{
    assert(c.tracks@[k].stands_for(&g.tracks@[k]));
}

} // verus!
