//! Tracks and the playlist.

use crate::disc;
use crate::disc::is_disc_uri;
use crate::order;
use crate::order::{block_order, move_order, reverse_order, shuffle_order, sort_order};
use crate::queue;
use crate::text;
use crate::text::{percent_encode, same};
use vstd::prelude::*;

verus! {

/// One playlist entry.
#[derive(Debug, PartialEq, Eq)]
pub struct Track {
    pub path: String,
    pub title: String,
    pub artist: String,
    pub album_artist: String,
    pub album: String,
    /// In nanoseconds, `None` until known.
    pub duration: Option<u64>,
    /// The file was missing or unreadable when it was last opened.
    pub broken: bool,
    pub read_only: bool,
    /// Stable identity of the entry; zero until it is stamped.
    pub id: u64,
}

/// What a [`Track`] holds.
#[verifier::ext_equal]
pub struct TrackView {
    pub path: Seq<char>,
    pub title: Seq<char>,
    pub artist: Seq<char>,
    pub album_artist: Seq<char>,
    pub album: Seq<char>,
    pub duration: Option<u64>,
    pub broken: bool,
    pub read_only: bool,
    pub id: u64,
}

impl View for Track {
    type V = TrackView;

    open spec fn view(&self) -> TrackView {
        TrackView {
            path: self.path@,
            title: self.title@,
            artist: self.artist@,
            album_artist: self.album_artist@,
            album: self.album@,
            duration: self.duration,
            broken: self.broken,
            read_only: self.read_only,
            id: self.id,
        }
    }
}

impl Clone for Track {
    fn clone(&self) -> (r: Track)
        ensures
            r@ == self@,
    {
        Track {
            path: self.path.clone(),
            title: self.title.clone(),
            artist: self.artist.clone(),
            album_artist: self.album_artist.clone(),
            album: self.album.clone(),
            duration: self.duration,
            broken: self.broken,
            read_only: self.read_only,
            id: self.id,
        }
    }
}

/// The URI that plays a path: a disc pseudo-URI is itself, a file's path is
/// percent-encoded behind the file scheme.
pub open spec fn uri_of(path: Seq<char>) -> Seq<char> {
    if disc::is_cdda(path) {
        path
    } else {
        "file://"@ + text::percent_encoded(vstd::utf8::encode_utf8(path), true)
    }
}

/// The URI that plays a path.
pub fn path_uri(path: &str) -> (r: String)
    ensures
        r@ == uri_of(path@),
{
    if is_disc_uri(path) {
        path.to_owned()
    } else {
        let mut uri = "file://".to_owned();
        let rest = percent_encode(path, true);
        uri.append(rest.as_str());
        uri
    }
}

/// What a row is sorted by.
#[derive(Debug, Clone, Copy, PartialEq, Eq, Structural)]
pub enum SortKey {
    Title,
    Artist,
    Album,
    Filename,
    Path,
}

/// The views of a list of tracks.
pub open spec fn views(tracks: Seq<Track>) -> Seq<TrackView> {
    tracks.map_values(|t: Track| t@)
}

/// The ids of a list of tracks.
pub open spec fn ids(rows: Seq<TrackView>) -> Seq<u64> {
    rows.map_values(|t: TrackView| t.id)
}

/// An ordered list of tracks with one of them current.
pub struct Playlist {
    tracks: Vec<Track>,
    current_index: usize,
    next_id: u64,
}

/// What a [`Playlist`] holds.
pub struct PlaylistView {
    pub rows: Seq<TrackView>,
    pub current: int,
    /// The id that the next entry is stamped with.
    pub next_id: int,
}

impl View for Playlist {
    type V = PlaylistView;

    closed spec fn view(&self) -> PlaylistView {
        PlaylistView {
            rows: views(self.tracks@),
            current: self.current_index as int,
            next_id: self.next_id as int,
        }
    }
}

/// A list has no more rows than a machine can number.
pub proof fn lemma_rows_fit(p: Playlist)
    ensures
        p@.rows.len() <= usize::MAX,
{
    assert(p.tracks.len() == p.tracks@.len());
    assert(p@.rows.len() == p.tracks@.len());
}

impl PlaylistView {
    /// What every operation keeps: an entry that is stamped has an id below the
    /// next one, and no two entries share one.
    pub open spec fn wf(self) -> bool {
        &&& 1 <= self.next_id <= u64::MAX
        &&& forall|i: int| 0 <= i < self.rows.len() ==> (#[trigger] self.rows[i]).id < self.next_id
        &&& distinct_ids(self.rows)
    }

    /// Every entry is stamped.
    pub open spec fn stamped(self) -> bool {
        forall|i: int| 0 <= i < self.rows.len() ==> (#[trigger] self.rows[i]).id != 0
    }

    /// Whether `n` more ids can be handed out.
    pub open spec fn room(self, n: int) -> bool {
        self.next_id + n <= u64::MAX
    }

    /// The current track.
    pub open spec fn current_row(self) -> Option<TrackView> {
        if 0 <= self.current < self.rows.len() {
            Some(self.rows[self.current])
        } else {
            None
        }
    }
}

/// No two stamped entries share an id.
pub open spec fn distinct_ids(rows: Seq<TrackView>) -> bool {
    forall|i: int, j: int|
        0 <= i < j < rows.len() && (#[trigger] rows[i]).id != 0 ==> rows[i].id != (
        #[trigger] rows[j]).id
}

/// How many entries before `n` are not stamped.
pub open spec fn unstamped(rows: Seq<TrackView>, n: int) -> int
    decreases n,
{
    if n <= 0 {
        0
    } else {
        unstamped(rows, n - 1) + if rows[n - 1].id == 0 {
            1int
        } else {
            0int
        }
    }
}

/// The entries with every missing id stamped, in order, from `next` on.
pub open spec fn stamped_rows(rows: Seq<TrackView>, next: int) -> Seq<TrackView> {
    Seq::new(
        rows.len(),
        |i: int|
            if rows[i].id == 0 {
                TrackView { id: (next + unstamped(rows, i)) as u64, ..rows[i] }
            } else {
                rows[i]
            },
    )
}

proof fn lemma_unstamped(rows: Seq<TrackView>, i: int, j: int)
    requires
        0 <= i <= j,
    ensures
        0 <= unstamped(rows, i) <= unstamped(rows, j) <= unstamped(rows, i) + (j - i),
        i < j && rows[i].id == 0 ==> unstamped(rows, i) < unstamped(rows, j),
    decreases j,
{
    if i < j {
        lemma_unstamped(rows, i, j - 1);
    } else if i > 0 {
        lemma_unstamped(rows, i - 1, j - 1);
    }
}

/// Stamping leaves every entry with an id of its own, and keeps the ids that
/// were there.
pub proof fn law_stamping_gives_distinct_ids(p: PlaylistView)
    requires
        p.wf(),
        p.room(p.rows.len() as int),
    ensures
        ({
            let after = PlaylistView {
                rows: stamped_rows(p.rows, p.next_id),
                next_id: p.next_id + unstamped(p.rows, p.rows.len() as int),
                ..p
            };
            &&& after.wf()
            &&& after.stamped()
            &&& forall|i: int| 0 <= i < p.rows.len() && (#[trigger] p.rows[i]).id != 0 ==> after.rows[i]
                == p.rows[i]
        }),
{
    let n = p.rows.len() as int;
    let after = stamped_rows(p.rows, p.next_id);
    lemma_unstamped(p.rows, 0, n);
    assert forall|i: int| 0 <= i < n implies (#[trigger] after[i]).id != 0 && after[i].id < p.next_id
        + unstamped(p.rows, n) by {
        lemma_unstamped(p.rows, i, n);
        lemma_unstamped(p.rows, 0, i);
        assert(p.rows[i].id < p.next_id);
    }
    assert forall|i: int, j: int| 0 <= i < j < n implies (#[trigger] after[i]).id != (
    #[trigger] after[j]).id by {
        lemma_unstamped(p.rows, i, j);
        lemma_unstamped(p.rows, 0, i);
        lemma_unstamped(p.rows, j, n);
        assert(p.rows[i].id < p.next_id);
        assert(p.rows[j].id < p.next_id);
    }
}

/// Where the track at `i` stands once the list is taken in an order.
pub open spec fn new_place(order: Seq<usize>, i: int) -> int {
    choose|k: int| 0 <= k < order.len() && order[k] == i
}

/// A playlist taken in an order: the same entries, and the current track still
/// current.
pub open spec fn reordered(p: PlaylistView, order: Seq<usize>) -> PlaylistView {
    PlaylistView {
        rows: order::arranged(p.rows, order),
        current: if p.current < p.rows.len() {
            new_place(order, p.current)
        } else {
            p.current
        },
        ..p
    }
}

/// Two lists hold entries of the same ids.
pub open spec fn same_entries(a: Seq<TrackView>, b: Seq<TrackView>) -> bool {
    forall|id: u64|
        #![trigger queue::is_live(a, id)]
        #![trigger queue::is_live(b, id)]
        queue::is_live(a, id) == queue::is_live(b, id)
}

proof fn lemma_reordered_entries(rows: Seq<TrackView>, order: Seq<usize>)
    requires
        order::is_order(order, rows.len() as int),
    ensures
        same_entries(rows, order::arranged(rows, order)),
{
    let moved = order::arranged(rows, order);
    assert forall|id: u64| queue::is_live(rows, id) == #[trigger] queue::is_live(moved, id) by {
        if queue::is_live(rows, id) {
            let i = choose|i: int| 0 <= i < rows.len() && (#[trigger] rows[i]).id == id;
            order::lemma_order_is_onto(order, rows.len() as int, i);
            let k = choose|k: int| 0 <= k < order.len() && #[trigger] order[k] == i;
            assert(moved[k].id == id);
        }
        if queue::is_live(moved, id) {
            let k = choose|k: int| 0 <= k < moved.len() && (#[trigger] moved[k]).id == id;
            assert(order[k] < rows.len());
            assert(rows[order[k] as int].id == id);
        }
    }
}

/// Whatever the order, the current track stays the current track, every entry
/// keeps its identity, and none is lost or doubled.
pub proof fn law_reorder_keeps_the_current_track(p: PlaylistView, order: Seq<usize>)
    requires
        p.wf(),
        0 <= p.current,
        order::is_order(order, p.rows.len() as int),
    ensures
        reordered(p, order).wf(),
        reordered(p, order).current_row() == p.current_row(),
        reordered(p, order).rows.len() == p.rows.len(),
        forall|i: int|
            0 <= i < p.rows.len() ==> reordered(p, order).rows.contains(#[trigger] p.rows[i]),
{
    let q = reordered(p, order);
    let n = p.rows.len() as int;
    if p.current < n {
        order::lemma_order_is_onto(order, n, p.current);
        let k = new_place(order, p.current);
        assert(order[k] == p.current);
        assert(q.rows[k] == p.rows[p.current]);
    }
    assert forall|k: int| 0 <= k < n implies (#[trigger] q.rows[k]).id < q.next_id by {
        assert(q.rows[k] == p.rows[order[k] as int]);
    }
    assert forall|i: int, j: int| 0 <= i < j < n && (#[trigger] q.rows[i]).id != 0 implies q.rows[i].id
        != (#[trigger] q.rows[j]).id by {
        assert(order[i] != order[j]);
        let a = order[i] as int;
        let b = order[j] as int;
        assert(q.rows[i] == p.rows[a] && q.rows[j] == p.rows[b]);
        if a < b {
            assert(p.rows[a].id != p.rows[b].id);
        } else {
            if p.rows[b].id != 0 {
                assert(p.rows[b].id != p.rows[a].id);
            }
        }
    }
    assert forall|i: int| 0 <= i < n implies q.rows.contains(#[trigger] p.rows[i]) by {
        order::lemma_order_is_onto(order, n, i);
        let k = choose|k: int| 0 <= k < n && #[trigger] order[k] == i;
        assert(q.rows[k] == p.rows[i]);
    }
}

/// The part of a path past its last separator.
pub open spec fn file_name(path: Seq<char>) -> Seq<char>
    decreases path.len(),
{
    if path.len() == 0 || path.last() == '/' {
        Seq::empty()
    } else {
        file_name(path.drop_last()).push(path.last())
    }
}

/// The part of a path past its last separator.
pub fn file_name_of(path: &str) -> (r: String)
    ensures
        r@ == file_name(path@),
{
    let n: usize = path.unicode_len();
    let mut i: usize = n;
    assert(path@.subrange(0, n as int) =~= path@);
    assert(path@.subrange(n as int, n as int) =~= Seq::empty());
    assert(file_name(path@) + Seq::<char>::empty() =~= file_name(path@));
    while i > 0
        invariant
            i <= n,
            n == path@.len(),
            file_name(path@) == file_name(path@.subrange(0, i as int)) + path@.subrange(
                i as int,
                n as int,
            ),
        decreases i,
    {
        let ghost head = path@.subrange(0, i as int);
        let c: char = path.get_char(i - 1);
        assert(head.last() == c);
        if c == '/' {
            assert(file_name(head) == Seq::<char>::empty());
            assert(file_name(path@) =~= path@.subrange(i as int, n as int));
            return path.substring_char(i, n).to_owned();
        }
        assert(head.drop_last() =~= path@.subrange(0, i - 1));
        assert(file_name(head) + path@.subrange(i as int, n as int) =~= file_name(head.drop_last())
            + path@.subrange(i - 1, n as int));
        i -= 1;
    }
    assert(file_name(path@) =~= path@);
    path.to_owned()
}

/// A path without the separators at its end.
pub open spec fn without_end(path: Seq<char>) -> Seq<char>
    decreases path.len(),
{
    if path.len() > 0 && path.last() == '/' {
        without_end(path.drop_last())
    } else {
        path
    }
}

/// Leaving separators off makes a path no longer.
pub proof fn lemma_without_end(path: Seq<char>)
    ensures
        without_end(path).len() <= path.len(),
    decreases path.len(),
{
    if path.len() > 0 && path.last() == '/' {
        lemma_without_end(path.drop_last());
    }
}

/// The last component of a path, if it names one: separators at the end and
/// components that stay where they are do not count, one that goes up names
/// nothing.
pub open spec fn last_component(path: Seq<char>) -> Option<Seq<char>>
    decreases path.len(),
{
    proof {
        lemma_without_end(path);
    }
    let t = without_end(path);
    if t.len() == 0 {
        None
    } else if file_name(t) == seq!['.', '.'] {
        None
    } else if file_name(t) == seq!['.'] {
        last_component(t.drop_last())
    } else {
        Some(file_name(t))
    }
}

fn strip_end(path: &str) -> (r: String)
    ensures
        r@ == without_end(path@),
{
    let n: usize = path.unicode_len();
    let mut i: usize = n;
    assert(path@.subrange(0, n as int) =~= path@);
    while i > 0 && path.get_char(i - 1) == '/'
        invariant
            i <= n,
            n == path@.len(),
            without_end(path@) == without_end(path@.subrange(0, i as int)),
        decreases i,
    {
        let ghost head = path@.subrange(0, i as int);
        assert(head.drop_last() =~= path@.subrange(0, i - 1));
        i -= 1;
    }
    path.substring_char(0, i).to_owned()
}

/// The last component of a path, if it names one.
pub fn last_component_of(path: &str) -> (r: Option<String>)
    ensures
        last_component(path@) == (match r {
            Some(name) => Some(name@),
            None => None,
        }),
    decreases path@.len(),
{
    let t = strip_end(path);
    proof {
        lemma_without_end(path@);
    }
    let n: usize = t.as_str().unicode_len();
    if n == 0 {
        return None;
    }
    let base = file_name_of(t.as_str());
    proof {
        reveal_strlit("..");
        reveal_strlit(".");
        assert(".."@ =~= seq!['.', '.']);
        assert("."@ =~= seq!['.']);
    }
    if same(base.as_str(), "..") {
        None
    } else if same(base.as_str(), ".") {
        let rest = t.as_str().substring_char(0, n - 1);
        assert(rest@ =~= t@.drop_last());
        last_component_of(rest)
    } else {
        Some(base)
    }
}

/// What a row is sorted by.
pub open spec fn sort_text(t: TrackView, key: SortKey) -> Seq<char> {
    match key {
        SortKey::Title => t.title,
        SortKey::Artist => t.artist,
        SortKey::Album => t.album,
        SortKey::Filename => file_name(t.path),
        SortKey::Path => t.path,
    }
}

/// What the rows are sorted by.
pub open spec fn sort_texts(rows: Seq<TrackView>, key: SortKey) -> Seq<Seq<char>> {
    rows.map_values(|t: TrackView| sort_text(t, key))
}

/// Whether `after` is `before` sorted by a key, rows with the same key staying in
/// their order.
pub open spec fn sorted(after: PlaylistView, before: PlaylistView, key: SortKey) -> bool {
    exists|o: Seq<usize>|
        {
            &&& order::is_order(o, before.rows.len() as int)
            &&& #[trigger] order::sorts(o, sort_texts(before.rows, key))
            &&& after == reordered(before, o)
        }
}

/// The rows to move: those named that exist, each once.
pub open spec fn named(rows: Seq<usize>, n: int) -> Seq<bool> {
    Seq::new(n as nat, |i: int| rows.contains(i as usize))
}

/// A playlist with an entry taken out; out of range takes out nothing.
pub open spec fn removed(p: PlaylistView, index: int) -> PlaylistView {
    if 0 <= index < p.rows.len() {
        PlaylistView {
            rows: p.rows.remove(index),
            current: if index < p.current {
                p.current - 1
            } else if p.current >= p.rows.len() - 1 && p.current > 0 {
                p.current - 1
            } else {
                p.current
            },
            ..p
        }
    } else {
        p
    }
}

impl Playlist {
    pub fn new() -> (r: Playlist)
        ensures
            r@.wf(),
            r@.rows == Seq::<TrackView>::empty(),
            r@.current == 0,
            r@.next_id == 1,
    {
        let r = Playlist { tracks: Vec::new(), current_index: 0, next_id: 1 };
        assert(r@.rows =~= Seq::<TrackView>::empty());
        r
    }

    pub fn len(&self) -> (r: usize)
        ensures
            r == self@.rows.len(),
    {
        self.tracks.len()
    }

    pub fn is_empty(&self) -> (r: bool)
        ensures
            r == (self@.rows.len() == 0),
    {
        self.tracks.len() == 0
    }

    pub fn current_index(&self) -> (r: usize)
        ensures
            r == self@.current,
    {
        self.current_index
    }

    /// The track at a place.
    pub fn track(&self, i: usize) -> (r: Option<&Track>)
        ensures
            match r {
                Some(t) => i < self@.rows.len() && t@ == self@.rows[i as int],
                None => i >= self@.rows.len(),
            },
    {
        if i < self.tracks.len() {
            Some(&self.tracks[i])
        } else {
            None
        }
    }

    /// The current track.
    pub fn current(&self) -> (r: Option<&Track>)
        ensures
            match r {
                Some(t) => self@.current_row() == Some(t@),
                None => self@.current_row() is None,
            },
    {
        self.track(self.current_index)
    }

    /// Appends an entry and stamps it with an id of its own.
    pub fn add(&mut self, track: Track)
        requires
            old(self)@.wf(),
            old(self)@.room(1),
        ensures
            final(self)@ == (PlaylistView {
                rows: old(self)@.rows.push(TrackView { id: old(self)@.next_id as u64, ..track@ }),
                next_id: old(self)@.next_id + 1,
                ..old(self)@
            }),
            final(self)@.wf(),
    {
        let mut t = track;
        t.id = self.next_id;
        self.next_id = self.next_id + 1;
        self.tracks.push(t);
        assert(self@.rows =~= old(self)@.rows.push(
            TrackView { id: old(self)@.next_id as u64, ..track@ },
        ));
    }

    /// Appends an entry that is not stamped yet.
    pub fn push(&mut self, track: Track)
        requires
            old(self)@.wf(),
        ensures
            final(self)@ == (PlaylistView {
                rows: old(self)@.rows.push(TrackView { id: 0, ..track@ }),
                ..old(self)@
            }),
            final(self)@.wf(),
    {
        let mut t = track;
        t.id = 0;
        self.tracks.push(t);
        assert(self@.rows =~= old(self)@.rows.push(TrackView { id: 0, ..track@ }));
    }

    /// Stamps every entry that has no id yet.
    pub fn ensure_ids(&mut self)
        requires
            old(self)@.wf(),
            old(self)@.room(old(self)@.rows.len() as int),
        ensures
            final(self)@ == (PlaylistView {
                rows: stamped_rows(old(self)@.rows, old(self)@.next_id),
                next_id: old(self)@.next_id + unstamped(
                    old(self)@.rows,
                    old(self)@.rows.len() as int,
                ),
                ..old(self)@
            }),
            final(self)@.wf(),
            final(self)@.stamped(),
    {
        let n: usize = self.tracks.len();
        let ghost rows = self@.rows;
        let ghost first = self.next_id as int;
        let mut i: usize = 0;
        while i < n
            invariant
                i <= n,
                n == self.tracks@.len(),
                n == rows.len(),
                first == old(self)@.next_id,
                rows == old(self)@.rows,
                first + n <= u64::MAX,
                self.current_index == old(self).current_index,
                self.next_id == first + unstamped(rows, i as int),
                0 <= unstamped(rows, i as int) <= i,
                forall|k: int|
                    0 <= k < n ==> (#[trigger] self.tracks@[k])@ == (if k < i {
                        stamped_rows(rows, first)[k]
                    } else {
                        rows[k]
                    }),
            decreases n - i,
        {
            let ghost before = self.tracks@;
            if self.tracks[i].id == 0 {
                let mut t = self.tracks[i].clone();
                t.id = self.next_id;
                self.next_id = self.next_id + 1;
                self.tracks.set(i, t);
            }
            assert(before[i as int]@ == rows[i as int]);
            assert(self.tracks@[i as int]@ == stamped_rows(rows, first)[i as int]);
            i += 1;
        }
        assert(self@.rows =~= stamped_rows(rows, first));
        proof {
            law_stamping_gives_distinct_ids(old(self)@);
        }
    }

    /// Removes an entry; out of range removes nothing. The current track stays
    /// current; where it is the one removed, the next one is, or the last.
    pub fn remove(&mut self, index: usize)
        requires
            old(self)@.wf(),
        ensures
            final(self)@.wf(),
            final(self)@ == removed(old(self)@, index as int),
    {
        if index >= self.tracks.len() {
            return ;
        }
        let n: usize = self.tracks.len();
        let _gone = self.tracks.remove(index);
        if index < self.current_index {
            self.current_index = self.current_index - 1;
        } else if self.current_index >= n - 1 && self.current_index > 0 {
            self.current_index = self.current_index - 1;
        }
        assert(self@.rows =~= old(self)@.rows.remove(index as int));
        proof {
            let p = old(self)@;
            let q = self@;
            assert forall|i: int| 0 <= i < q.rows.len() implies (#[trigger] q.rows[i]).id < q.next_id by {
                assert(q.rows[i] == p.rows[if i < index {
                    i
                } else {
                    i + 1
                }]);
            }
            assert forall|i: int, j: int|
                0 <= i < j < q.rows.len() && (#[trigger] q.rows[i]).id != 0 implies q.rows[i].id != (
            #[trigger] q.rows[j]).id by {
                let a = if i < index {
                    i
                } else {
                    i + 1
                };
                let b = if j < index {
                    j
                } else {
                    j + 1
                };
                assert(q.rows[i] == p.rows[a] && q.rows[j] == p.rows[b]);
            }
        }
    }

    /// Removes every entry.
    pub fn clear(&mut self)
        requires
            old(self)@.wf(),
        ensures
            final(self)@.wf(),
            final(self)@ == (PlaylistView {
                rows: Seq::empty(),
                current: 0,
                next_id: old(self)@.next_id,
            }),
    {
        self.tracks.clear();
        self.current_index = 0;
        assert(self@.rows =~= Seq::empty());
    }

    /// Makes a track current; out of range changes nothing.
    pub fn jump_to(&mut self, index: usize) -> (r: bool)
        ensures
            r == (index < old(self)@.rows.len()),
            !r ==> *final(self) == *old(self),
            final(self)@ == (if r {
                PlaylistView { current: index as int, ..old(self)@ }
            } else {
                old(self)@
            }),
    {
        if index < self.tracks.len() {
            self.current_index = index;
            true
        } else {
            false
        }
    }

    /// Takes the entries in an order.
    fn reorder(&mut self, order: &Vec<usize>)
        requires
            old(self)@.wf(),
            order::is_order(order@, old(self)@.rows.len() as int),
        ensures
            final(self)@ == reordered(old(self)@, order@),
            final(self)@.wf(),
            same_entries(old(self)@.rows, final(self)@.rows),
    {
        let n: usize = self.tracks.len();
        let ghost p = self@;
        proof {
            lemma_reordered_entries(p.rows, order@);
        }
        let mut out: Vec<Track> = Vec::new();
        let mut current: usize = self.current_index;
        let mut k: usize = 0;
        proof {
            if p.current < n {
                order::lemma_order_is_onto(order@, n as int, p.current);
            }
        }
        while k < n
            invariant
                k <= n,
                n == self.tracks@.len(),
                n == order@.len(),
                order::is_order(order@, n as int),
                *self == *old(self),
                p == old(self)@,
                out@.len() == k,
                forall|j: int|
                    0 <= j < k ==> (#[trigger] out@[j])@ == self.tracks@[order@[j] as int]@,
                current == self.current_index || (exists|j: int|
                    0 <= j < k && #[trigger] order@[j] == p.current && current == j),
                forall|j: int| 0 <= j < k && #[trigger] order@[j] == p.current ==> current == j,
            decreases n - k,
        {
            let from: usize = order[k];
            assert(order@[k as int] < n);
            out.push(self.tracks[from].clone());
            if from == self.current_index {
                current = k;
            }
            k += 1;
        }
        proof {
            if p.current < n {
                let place = new_place(order@, p.current);
                assert(0 <= place < n && order@[place] == p.current);
                assert(current == place);
            } else {
                assert forall|j: int| 0 <= j < n implies #[trigger] order@[j] != p.current by {
                    assert(order@[j] < n);
                }
            }
        }
        self.tracks = out;
        self.current_index = current;
        assert(self@.rows =~= order::arranged(p.rows, order@)) by {
            assert forall|j: int| 0 <= j < n implies #[trigger] self@.rows[j] == order::arranged(
                p.rows,
                order@,
            )[j] by {
                assert(order@[j] < n);
                assert(self.tracks@[j]@ == old(self).tracks@[order@[j] as int]@);
            }
        }
        proof {
            law_reorder_keeps_the_current_track(p, order@);
        }
    }

    /// Moves one entry so that it stands at `to`; out of range moves nothing.
    pub fn move_track(&mut self, from: usize, to: usize)
        requires
            old(self)@.wf(),
        ensures
            final(self)@.wf(),
            same_entries(old(self)@.rows, final(self)@.rows),
            final(self)@ == (if from < old(self)@.rows.len() && to < old(self)@.rows.len() {
                reordered(
                    old(self)@,
                    order::moved(old(self)@.rows.len(), from as int, to as int),
                )
            } else {
                old(self)@
            }),
    {
        let n: usize = self.tracks.len();
        if from < n && to < n {
            let o = move_order(n, from, to);
            self.reorder(&o);
        }
    }

    /// Moves several entries as one block that lands before `dest`, which is a
    /// place in the list as it stands; past the end means the end. Entries named
    /// twice or not there are ignored. Gives the place the block landed at and
    /// how many it holds, or `None` where none was named.
    pub fn move_tracks(&mut self, rows: &Vec<usize>, dest: usize) -> (r: Option<(usize, usize)>)
        requires
            old(self)@.wf(),
        ensures
            final(self)@.wf(),
            same_entries(old(self)@.rows, final(self)@.rows),
            ({
                let p = old(self)@;
                let n = p.rows.len() as int;
                let chosen = named(rows@, n);
                let at = if dest < n {
                    dest as int
                } else {
                    n
                };
                let held = order::picks(chosen, 0, n, true);
                match r {
                    Some((start, count)) => {
                        &&& held.len() > 0
                        &&& count == held.len()
                        &&& start + count <= n
                        &&& start == order::picks(chosen, 0, at, false).len()
                        &&& final(self)@ == reordered(p, order::block(chosen, at))
                    },
                    None => held.len() == 0 && final(self)@ == p,
                }
            }),
    {
        let n: usize = self.tracks.len();
        let at: usize = if dest < n {
            dest
        } else {
            n
        };
        let mut chosen: Vec<bool> = Vec::new();
        let mut count: usize = 0;
        let mut start: usize = 0;
        let mut i: usize = 0;
        let ghost all = named(rows@, n as int);
        while i < n
            invariant
                i <= n,
                at <= n,
                n == self.tracks@.len(),
                *self == *old(self),
                all == named(rows@, n as int),
                chosen@ == all.subrange(0, i as int),
                count == order::picks(all, 0, i as int, true).len(),
                count <= i,
                start == order::picks(
                    all,
                    0,
                    if i < at {
                        i as int
                    } else {
                        at as int
                    },
                    false,
                ).len(),
                start + count <= i,
            decreases n - i,
        {
            let is_in = holds(rows, i);
            chosen.push(is_in);
            assert(all[i as int] == is_in);
            assert(chosen@ =~= all.subrange(0, i + 1));
            if is_in {
                count += 1;
            } else if i < at {
                start += 1;
            }
            i += 1;
        }
        assert(chosen@ =~= all);
        if count == 0 {
            return None;
        }
        let o = block_order(&chosen, at);
        self.reorder(&o);
        Some((start, count))
    }

    /// Turns the list round.
    pub fn reverse(&mut self)
        requires
            old(self)@.wf(),
        ensures
            final(self)@.wf(),
            same_entries(old(self)@.rows, final(self)@.rows),
            final(self)@ == reordered(old(self)@, order::reversed(old(self)@.rows.len())),
    {
        let o = reverse_order(self.tracks.len());
        self.reorder(&o);
    }

    /// Sorts the list by a key, rows with the same key staying in their order.
    pub fn sort_by(&mut self, key: SortKey)
        requires
            old(self)@.wf(),
        ensures
            final(self)@.wf(),
            same_entries(old(self)@.rows, final(self)@.rows),
            sorted(final(self)@, old(self)@, key),
    {
        let n: usize = self.tracks.len();
        let mut keys: Vec<String> = Vec::new();
        let mut i: usize = 0;
        while i < n
            invariant
                i <= n,
                n == self.tracks@.len(),
                *self == *old(self),
                keys@.len() == i,
                forall|k: int|
                    0 <= k < i ==> (#[trigger] keys@[k])@ == sort_text(self.tracks@[k]@, key),
            decreases n - i,
        {
            let t = &self.tracks[i];
            let text = match key {
                SortKey::Title => t.title.clone(),
                SortKey::Artist => t.artist.clone(),
                SortKey::Album => t.album.clone(),
                SortKey::Filename => file_name_of(t.path.as_str()),
                SortKey::Path => t.path.clone(),
            };
            keys.push(text);
            i += 1;
        }
        let o = sort_order(&keys);
        assert(order::key_views(keys@) =~= sort_texts(old(self)@.rows, key));
        self.reorder(&o);
    }

    /// Shuffles the list by draws.
    pub fn randomize(&mut self, draws: &Vec<u64>)
        requires
            old(self)@.wf(),
        ensures
            final(self)@.wf(),
            same_entries(old(self)@.rows, final(self)@.rows),
            final(self)@ == reordered(
                old(self)@,
                order::shuffled(
                    order::identity(old(self)@.rows.len()),
                    draws@,
                    old(self)@.rows.len() - 1,
                ),
            ),
    {
        let o = shuffle_order(self.tracks.len(), draws);
        self.reorder(&o);
    }

    /// The list has ids left for this many more entries.
    pub fn has_room(&self, n: usize) -> (r: bool)
        ensures
            r == self@.room(n as int),
    {
        n as u64 <= u64::MAX - self.next_id
    }

    /// The place of the entry with an id.
    pub fn row_of(&self, id: u64) -> (r: Option<usize>)
        ensures
            match r {
                Some(i) => {
                    &&& i < self@.rows.len()
                    &&& self@.rows[i as int].id == id
                    &&& forall|k: int| 0 <= k < i ==> (#[trigger] self@.rows[k]).id != id
                },
                None => forall|k: int| 0 <= k < self@.rows.len() ==> (#[trigger] self@.rows[k]).id != id,
            },
    {
        let n: usize = self.tracks.len();
        let mut i: usize = 0;
        while i < n
            invariant
                i <= n,
                n == self.tracks@.len(),
                forall|k: int| 0 <= k < i ==> (#[trigger] self@.rows[k]).id != id,
            decreases n - i,
        {
            if self.tracks[i].id == id {
                assert(self@.rows[i as int].id == id);
                return Some(i);
            }
            assert(self@.rows[i as int].id != id);
            i += 1;
        }
        None
    }

    /// Replaces an entry, keeping its identity; out of range changes nothing.
    pub fn set_track(&mut self, i: usize, track: Track)
        requires
            old(self)@.wf(),
        ensures
            final(self)@.wf(),
            final(self)@ == (if i < old(self)@.rows.len() {
                PlaylistView {
                    rows: old(self)@.rows.update(
                        i as int,
                        TrackView { id: old(self)@.rows[i as int].id, ..track@ },
                    ),
                    ..old(self)@
                }
            } else {
                old(self)@
            }),
    {
        if i < self.tracks.len() {
            let mut t = track;
            t.id = self.tracks[i].id;
            self.tracks.set(i, t);
            assert(self@.rows =~= old(self)@.rows.update(
                i as int,
                TrackView { id: old(self)@.rows[i as int].id, ..track@ },
            ));
            assert forall|a: int, b: int|
                0 <= a < b < self@.rows.len() && (#[trigger] self@.rows[a]).id != 0 implies self@.rows[a].id
                != (#[trigger] self@.rows[b]).id by {
                assert(self@.rows[a].id == old(self)@.rows[a].id);
                assert(self@.rows[b].id == old(self)@.rows[b].id);
            }
            assert forall|a: int| 0 <= a < self@.rows.len() implies (#[trigger] self@.rows[a]).id
                < self@.next_id by {
                assert(self@.rows[a].id == old(self)@.rows[a].id);
            }
        }
    }
}

/// Whether a list holds a number.
fn holds(rows: &Vec<usize>, x: usize) -> (r: bool)
    ensures
        r == rows@.contains(x),
{
    let mut i: usize = 0;
    while i < rows.len()
        invariant
            i <= rows@.len(),
            forall|k: int| 0 <= k < i ==> #[trigger] rows@[k] != x,
        decreases rows@.len() - i,
    {
        if rows[i] == x {
            assert(rows@[i as int] == x);
            return true;
        }
        i += 1;
    }
    false
}

/// The part past the last separator: it holds no separator, the path ends in it, and
/// what stands before it, if anything does, ends in one.
pub proof fn law_a_file_name_is_the_end_of_its_path(dir: Seq<char>, name: Seq<char>)
    requires
        !name.contains('/'),
    ensures
        file_name(dir.push('/') + name) == name,
        file_name(name) == name,
    decreases name.len(),
{
    let whole = dir.push('/') + name;
    if name.len() == 0 {
        assert(whole =~= dir.push('/'));
        assert(whole.last() == '/');
        assert(name =~= Seq::<char>::empty());
    } else {
        let shorter = name.drop_last();
        assert(!shorter.contains('/')) by {
            if shorter.contains('/') {
                let k = choose|k: int| 0 <= k < shorter.len() && shorter[k] == '/';
                assert(name[k] == '/');
            }
        }
        law_a_file_name_is_the_end_of_its_path(dir, shorter);
        assert(whole.drop_last() =~= dir.push('/') + shorter);
        assert(name.contains(name.last()));
        assert(whole.last() == name.last());
        assert(shorter.push(name.last()) =~= name);
    }
}

/// The last component of a path is the name it ends in, however many separators follow
/// it; a name that goes up is none, and one that stays where it is does not count.
pub proof fn law_the_last_component_is_the_name(dir: Seq<char>, name: Seq<char>, after: nat)
    requires
        name.len() > 0,
        !name.contains('/'),
    ensures
        ({
            let slashes = Seq::new(after, |i: int| '/');
            let whole = dir.push('/') + name + slashes;
            &&& name != seq!['.'] && name != seq!['.', '.'] ==> last_component(whole) == Some(name)
            &&& name == seq!['.', '.'] ==> last_component(whole) is None
            &&& name == seq!['.'] ==> last_component(whole) == last_component(dir.push('/'))
        }),
{
    let slashes = Seq::new(after, |i: int| '/');
    let head = dir.push('/') + name;
    assert(name.contains(name.last()));
    assert(head.last() == name.last());
    lemma_without_end_of(head, after);
    law_a_file_name_is_the_end_of_its_path(dir, name);
    lemma_without_end(head + slashes);
    if name == seq!['.'] {
        assert(head.drop_last() =~= dir.push('/'));
        assert(name.len() == 1);
        assert(seq!['.', '.'].len() == 2);
    }
}

proof fn lemma_without_end_of(head: Seq<char>, after: nat)
    requires
        head.len() > 0,
        head.last() != '/',
    ensures
        without_end(head + Seq::new(after, |i: int| '/')) == head,
    decreases after,
{
    let slashes = Seq::new(after, |i: int| '/');
    if after == 0 {
        assert(head + slashes =~= head);
    } else {
        let fewer = Seq::new((after - 1) as nat, |i: int| '/');
        assert((head + slashes).drop_last() =~= head + fewer);
        assert((head + slashes).last() == '/');
        lemma_without_end_of(head, (after - 1) as nat);
    }
}

/// A path is played by a URI of its own: a disc's stays as it is, and a file's is the
/// file scheme and then the path, of which a letter stands for itself.
pub proof fn law_a_file_is_played_by_its_path(path: Seq<char>)
    ensures
        disc::is_cdda(path) ==> uri_of(path) == path,
        !disc::is_cdda(path) ==> {
            &&& uri_of(path).subrange(0, 7) == seq!['f', 'i', 'l', 'e', ':', '/', '/']
            &&& uri_of(path).subrange(7, uri_of(path).len() as int) == text::percent_encoded(
                vstd::utf8::encode_utf8(path),
                true,
            )
        },
{
    reveal_strlit("file://");
    if !disc::is_cdda(path) {
        let rest = text::percent_encoded(vstd::utf8::encode_utf8(path), true);
        assert(uri_of(path).subrange(0, 7) =~= "file://"@);
        assert("file://"@ =~= seq!['f', 'i', 'l', 'e', ':', '/', '/']);
        assert(uri_of(path).subrange(7, uri_of(path).len() as int) =~= rest);
    }
}

/// A list that was sorted by a key stands in the order of that key: title, artist,
/// album, the end of the path, or the path, as the rows themselves have it.
pub proof fn law_a_sorted_list_stands_in_order(
    before: PlaylistView,
    after: PlaylistView,
    key: SortKey,
    a: int,
    b: int,
)
    requires
        sorted(after, before, key),
        0 <= a < b < after.rows.len(),
    ensures
        ({
            let x = after.rows[a];
            let y = after.rows[b];
            match key {
                SortKey::Title => text::text_before(x.title, y.title),
                SortKey::Artist => text::text_before(x.artist, y.artist),
                SortKey::Album => text::text_before(x.album, y.album),
                SortKey::Filename => text::text_before(file_name(x.path), file_name(y.path)),
                SortKey::Path => text::text_before(x.path, y.path),
            }
        }),
{
    let o = choose|o: Seq<usize>|
        {
            &&& order::is_order(o, before.rows.len() as int)
            &&& #[trigger] order::sorts(o, sort_texts(before.rows, key))
            &&& after == reordered(before, o)
        };
    let keys = sort_texts(before.rows, key);
    assert(o[a] < before.rows.len() && o[b] < before.rows.len());
    assert(after.rows[a] == before.rows[o[a] as int]);
    assert(after.rows[b] == before.rows[o[b] as int]);
    assert(keys[o[a] as int] == sort_text(after.rows[a], key));
    assert(keys[o[b] as int] == sort_text(after.rows[b], key));
    assert(text::text_before(keys[o[a] as int], keys[o[b] as int]));
}

/// Rows that are sorted by the same text stay in the order in which they stood.
pub proof fn law_a_sort_keeps_ties_in_order(
    rows: Seq<TrackView>,
    o: Seq<usize>,
    key: SortKey,
    i: int,
    j: int,
)
    requires
        order::is_order(o, rows.len() as int),
        order::sorts(o, sort_texts(rows, key)),
        0 <= i < j < rows.len(),
        sort_text(rows[i], key) == sort_text(rows[j], key),
    ensures
        exists|a: int, b: int|
            0 <= a < b < o.len() && #[trigger] o[a] == i && #[trigger] o[b] == j,
{
    order::lemma_order_is_onto(o, rows.len() as int, i);
    order::lemma_order_is_onto(o, rows.len() as int, j);
    let a = choose|a: int| 0 <= a < o.len() && #[trigger] o[a] == i;
    let b = choose|b: int| 0 <= b < o.len() && #[trigger] o[b] == j;
    let keys = sort_texts(rows, key);
    assert(keys[i] == keys[j]);
    if b < a {
        assert(o[b] < o[a]);
    }
}

/// Taking an entry out leaves the others in their order and the current track current.
/// Where it is that track that goes, the one behind it takes its place, or the last one
/// where none was behind it.
pub proof fn law_a_removal_keeps_the_current_track(p: PlaylistView, index: int)
    requires
        0 <= index < p.rows.len(),
        0 <= p.current < p.rows.len(),
    ensures
        ({
            let q = removed(p, index);
            &&& q.rows == p.rows.remove(index)
            &&& index != p.current ==> q.current_row() == p.current_row()
            &&& index == p.current && index + 1 < p.rows.len() ==> q.current_row() == Some(
                p.rows[index + 1],
            )
            &&& index == p.current && index + 1 == p.rows.len() && index > 0 ==> q.current_row()
                == Some(p.rows[index - 1])
        }),
        index == p.current && p.rows.len() == 1 ==> removed(p, index).current == 0,
{
}

/// A list that is turned round has the row at each place that stood as far from the
/// other end, and the current track stays current.
pub proof fn law_a_list_turned_round_reads_from_its_end(p: PlaylistView, k: int)
    requires
        p.wf(),
        0 <= p.current < p.rows.len() <= usize::MAX,
        0 <= k < p.rows.len(),
    ensures
        ({
            let back = reordered(p, order::reversed(p.rows.len()));
            &&& back.rows[k] == p.rows[p.rows.len() - 1 - k]
            &&& back.current_row() == p.current_row()
            &&& back.current == p.rows.len() - 1 - p.current
        }),
{
    let n = p.rows.len();
    let o = order::reversed(n);
    order::lemma_reversed_and_moved_are_orders(n, 0, 0);
    law_reorder_keeps_the_current_track(p, o);
    order::lemma_order_is_onto(o, n as int, p.current);
    let at = new_place(o, p.current);
    assert(o[at] == p.current);
}

/// A row that is moved stands where it was sent, the others keep their order, and the
/// current track stays current.
pub proof fn law_a_moved_row_stands_where_it_was_sent(p: PlaylistView, from: int, to: int)
    requires
        p.wf(),
        0 <= p.current < p.rows.len() <= usize::MAX,
        0 <= from < p.rows.len(),
        0 <= to < p.rows.len(),
    ensures
        ({
            let sent = reordered(p, order::moved(p.rows.len(), from, to));
            &&& sent.rows[to] == p.rows[from]
            &&& sent.rows.remove(to) == p.rows.remove(from)
            &&& sent.current_row() == p.current_row()
        }),
{
    let n = p.rows.len();
    order::lemma_reversed_and_moved_are_orders(n, from, to);
    order::law_a_moved_entry_stands_where_it_was_sent(p.rows, from, to);
    law_reorder_keeps_the_current_track(p, order::moved(n, from, to));
}

/// Rows named by their places are those and no others.
pub proof fn law_rows_are_named_by_their_places(rows: Seq<usize>, n: int, i: int)
    requires
        0 <= i < n <= usize::MAX,
    ensures
        named(rows, n).len() == n,
        named(rows, n)[i] <==> exists|k: int| 0 <= k < rows.len() && #[trigger] rows[k] == i,
{
    if named(rows, n)[i] {
        let k = choose|k: int| 0 <= k < rows.len() && rows[k] == i as usize;
        assert(rows[k] == i);
    }
    if exists|k: int| 0 <= k < rows.len() && #[trigger] rows[k] == i {
        let k = choose|k: int| 0 <= k < rows.len() && #[trigger] rows[k] == i;
        assert(rows[k] == i as usize);
    }
}

/// Stamping changes nothing of a row but the id of one that had none, and hands the ids out
/// in the order of the rows, without a gap.
pub proof fn law_stamping_goes_down_the_rows(rows: Seq<TrackView>, next: u64, i: int, j: int)
    requires
        0 <= i < j < rows.len(),
        next + rows.len() <= u64::MAX,
        rows[i].id == 0,
        rows[j].id == 0,
        forall|k: int| i < k < j ==> (#[trigger] rows[k]).id != 0,
    ensures
        stamped_rows(rows, next as int).len() == rows.len(),
        stamped_rows(rows, next as int)[i] == (TrackView {
            id: stamped_rows(rows, next as int)[i].id,
            ..rows[i]
        }),
        stamped_rows(rows, next as int)[j].id == stamped_rows(rows, next as int)[i].id + 1,
        (forall|k: int| 0 <= k < i ==> (#[trigger] rows[k]).id != 0) ==> stamped_rows(
            rows,
            next as int,
        )[i].id == next,
{
    if forall|k: int| 0 <= k < i ==> (#[trigger] rows[k]).id != 0 {
        lemma_unstamped_between(rows, 0, i);
    }
    lemma_unstamped_between(rows, i + 1, j);
    lemma_unstamped_is_few(rows, i);
    lemma_unstamped_is_few(rows, j);
}

proof fn lemma_unstamped_between(rows: Seq<TrackView>, a: int, b: int)
    requires
        0 <= a <= b <= rows.len(),
        forall|k: int| a <= k < b ==> (#[trigger] rows[k]).id != 0,
    ensures
        unstamped(rows, b) == unstamped(rows, a),
    decreases b - a,
{
    if a < b {
        lemma_unstamped_between(rows, a, b - 1);
        assert(rows[b - 1].id != 0);
    }
}

proof fn lemma_unstamped_is_few(rows: Seq<TrackView>, n: int)
    requires
        0 <= n <= rows.len(),
    ensures
        0 <= unstamped(rows, n) <= n,
    decreases n,
{
    if n > 0 {
        lemma_unstamped_is_few(rows, n - 1);
    }
}

/// A list is stamped where no row of it has the id zero.
pub proof fn law_a_stamped_list_has_no_blank_id(p: PlaylistView)
    ensures
        p.stamped() <==> !ids(p.rows).contains(0),
{
    if p.stamped() && ids(p.rows).contains(0) {
        let k = choose|k: int| 0 <= k < ids(p.rows).len() && ids(p.rows)[k] == 0;
        assert(p.rows[k].id == 0);
    }
    if !p.stamped() {
        let k = choose|k: int| 0 <= k < p.rows.len() && (#[trigger] p.rows[k]).id == 0;
        assert(ids(p.rows)[k] == 0);
    }
}

} // verus!
