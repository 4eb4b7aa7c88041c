//! The session behind the C interface: one context, and what each call of the
//! interface does to it.
//!
//! A call takes the context as an `Option`, `None` standing for a null pointer.
//! What a call needs from outside (a file's tags, a gain out of the library, the
//! time) it takes as an argument.

pub mod dedupe;
pub mod devices;
pub mod disc;
pub mod eq;
pub mod granite;
pub mod id3;
pub mod lyrics;
pub mod media_library;
pub mod now_playing;
pub mod playback;
pub mod playlist;
pub mod queue;
pub mod settings;
pub mod skin;
pub mod viz;

use crate::config;
use crate::config::{rg_album_mode, Config};
use crate::engine::backend;
use crate::engine::backend::{Applied, AudioBackend, BackendError, Call, Timeline, UNITY_PPB};
use crate::engine::{BusEvent, Player, PlayerState, RgChain};
use crate::model;
use crate::model::{path_uri, Playlist};
use crate::order;
use crate::queue::Queue;
use crate::shuffle::ShuffleState;
use std::collections::HashMap;
use vstd::prelude::*;

verus! {

broadcast use vstd::std_specs::hash::group_hash_axioms;

/// One per running session.
pub struct SparkampCtx<B: AudioBackend> {
    pub player: Player<B>,
    pub playlist: Playlist,
    pub config: Config,
    pub shuffle_state: ShuffleState,
    /// The manual play queue, drained ahead of shuffle and of the list order.
    pub queue: Queue,
    /// How many rows a background result has changed since this was last read.
    pub dirty_count: u32,
    /// The last duration the player reported, in nanoseconds. It outlives a
    /// stop, so that the seek bar stays right.
    pub last_known_duration: Option<u64>,
    /// Where to seek once a fresh load reports a duration, in parts per billion
    /// of that duration.
    pub pending_seek: Option<u64>,
}

/// The tags a background scan read for an entry, named by the entry's id.
pub struct MetaResult {
    pub id: u64,
    pub title: String,
    pub artist: String,
    pub album_artist: String,
}

/// What a [`MetaResult`] holds.
pub struct MetaView {
    pub id: u64,
    pub title: Seq<char>,
    pub artist: Seq<char>,
    pub album_artist: Seq<char>,
}

impl View for MetaResult {
    type V = MetaView;

    open spec fn view(&self) -> MetaView {
        MetaView {
            id: self.id,
            title: self.title@,
            artist: self.artist@,
            album_artist: self.album_artist@,
        }
    }
}

/// The length a background probe found for an entry, named by the entry's id.
#[derive(Debug, Clone, Copy, PartialEq, Eq, Structural)]
pub struct DurationResult {
    pub id: u64,
    /// In nanoseconds.
    pub duration: u64,
}

/// The last row with an id.
pub open spec fn last_row(rows: Seq<model::TrackView>, id: u64) -> Option<int>
    decreases rows.len(),
{
    if rows.len() == 0 {
        None
    } else if rows.last().id == id {
        Some(rows.len() - 1)
    } else {
        last_row(rows.drop_last(), id)
    }
}

/// The rows once one scan result has landed.
pub open spec fn meta_landed(rows: Seq<model::TrackView>, m: MetaView) -> Seq<model::TrackView> {
    match last_row(rows, m.id) {
        Some(i) => rows.update(
            i,
            model::TrackView {
                title: m.title,
                artist: m.artist,
                album_artist: m.album_artist,
                ..rows[i]
            },
        ),
        None => rows,
    }
}

/// The rows once one probe result has landed.
pub open spec fn duration_landed(rows: Seq<model::TrackView>, d: DurationResult) -> Seq<
    model::TrackView,
> {
    match last_row(rows, d.id) {
        Some(i) => rows.update(i, model::TrackView { duration: Some(d.duration), ..rows[i] }),
        None => rows,
    }
}

/// The rows once scan results have landed, in their order.
pub open spec fn metas_landed(rows: Seq<model::TrackView>, metas: Seq<MetaResult>) -> Seq<
    model::TrackView,
>
    decreases metas.len(),
{
    if metas.len() == 0 {
        rows
    } else {
        meta_landed(metas_landed(rows, metas.drop_last()), metas.last()@)
    }
}

/// The rows once probe results have landed, in their order.
pub open spec fn durations_landed(rows: Seq<model::TrackView>, found: Seq<DurationResult>) -> Seq<
    model::TrackView,
>
    decreases found.len(),
{
    if found.len() == 0 {
        rows
    } else {
        duration_landed(durations_landed(rows, found.drop_last()), found.last())
    }
}

/// How many of the scan results name a row.
pub open spec fn metas_counted(rows: Seq<model::TrackView>, metas: Seq<MetaResult>) -> int
    decreases metas.len(),
{
    if metas.len() == 0 {
        0
    } else {
        metas_counted(rows, metas.drop_last()) + if last_row(rows, metas.last().id) is Some {
            1int
        } else {
            0int
        }
    }
}

/// How many of the probe results name a row.
pub open spec fn durations_counted(rows: Seq<model::TrackView>, found: Seq<DurationResult>) -> int
    decreases found.len(),
{
    if found.len() == 0 {
        0
    } else {
        durations_counted(rows, found.drop_last()) + if last_row(rows, found.last().id) is Some {
            1int
        } else {
            0int
        }
    }
}

proof fn lemma_last_row(rows: Seq<model::TrackView>, id: u64)
    ensures
        match last_row(rows, id) {
            Some(i) => {
                &&& 0 <= i < rows.len()
                &&& rows[i].id == id
                &&& forall|k: int| i < k < rows.len() ==> (#[trigger] rows[k]).id != id
            },
            None => forall|k: int| 0 <= k < rows.len() ==> (#[trigger] rows[k]).id != id,
        },
    decreases rows.len(),
{
    if rows.len() > 0 && rows.last().id != id {
        let head = rows.drop_last();
        lemma_last_row(head, id);
        assert forall|k: int| 0 <= k < head.len() implies #[trigger] rows[k] == head[k] by {}
    }
}

proof fn lemma_last_row_is(rows: Seq<model::TrackView>, id: u64, i: int)
    requires
        0 <= i < rows.len(),
        rows[i].id == id,
        forall|k: int| i < k < rows.len() ==> (#[trigger] rows[k]).id != id,
    ensures
        last_row(rows, id) == Some(i),
{
    lemma_last_row(rows, id);
}

/// Rows with the same ids in the same places answer alike.
proof fn lemma_last_row_by_ids(a: Seq<model::TrackView>, b: Seq<model::TrackView>, id: u64)
    requires
        model::ids(a) == model::ids(b),
    ensures
        last_row(a, id) == last_row(b, id),
{
    lemma_last_row(a, id);
    lemma_last_row(b, id);
    assert(a.len() == model::ids(a).len() && b.len() == model::ids(b).len());
    assert forall|k: int| 0 <= k < a.len() implies (#[trigger] a[k]).id == (#[trigger] b[k]).id by {
        assert(model::ids(a)[k] == a[k].id);
        assert(model::ids(b)[k] == b[k].id);
    }
    match (last_row(a, id), last_row(b, id)) {
        (Some(i), Some(j)) => {
            assert(a[i].id == b[i].id && a[j].id == b[j].id);
        },
        (Some(i), None) => {
            assert(a[i].id == b[i].id);
        },
        (None, Some(j)) => {
            assert(a[j].id == b[j].id);
        },
        (None, None) => {},
    }
}

/// A result that lands changes no id.
proof fn lemma_landing_keeps_ids(
    rows: Seq<model::TrackView>,
    metas: Seq<MetaResult>,
    found: Seq<DurationResult>,
)
    ensures
        model::ids(metas_landed(rows, metas)) == model::ids(rows),
        model::ids(durations_landed(rows, found)) == model::ids(rows),
    decreases metas.len() + found.len(),
{
    if metas.len() > 0 {
        lemma_landing_keeps_ids(rows, metas.drop_last(), Seq::empty());
        let mid = metas_landed(rows, metas.drop_last());
        lemma_last_row(mid, metas.last().id);
        assert(model::ids(meta_landed(mid, metas.last()@)) =~= model::ids(mid));
    }
    if found.len() > 0 {
        lemma_landing_keeps_ids(rows, Seq::empty(), found.drop_last());
        let mid = durations_landed(rows, found.drop_last());
        lemma_last_row(mid, found.last().id);
        assert(model::ids(duration_landed(mid, found.last())) =~= model::ids(mid));
    }
}

/// A scan result lands on the entry it was read for, however the list was
/// reordered in the meantime.
pub proof fn law_scan_results_follow_their_track(
    p: model::PlaylistView,
    order: Seq<usize>,
    m: MetaView,
)
    requires
        p.wf(),
        m.id != 0,
        order::is_order(order, p.rows.len() as int),
    ensures
        meta_landed(order::arranged(p.rows, order), m) == order::arranged(
            meta_landed(p.rows, m),
            order,
        ),
{
    let moved = order::arranged(p.rows, order);
    lemma_moved_row(p, order, m.id);
    lemma_last_row(p.rows, m.id);
    lemma_last_row(moved, m.id);
    assert(meta_landed(p.rows, m).len() == order.len());
    assert(meta_landed(moved, m).len() == order.len());
    assert(meta_landed(moved, m) =~= order::arranged(meta_landed(p.rows, m), order)) by {
        assert forall|k: int| 0 <= k < order.len() implies #[trigger] meta_landed(moved, m)[k]
            == order::arranged(meta_landed(p.rows, m), order)[k] by {
            assert(order[k] < p.rows.len());
            match last_row(p.rows, m.id) {
                Some(i) => {
                    let at = model::new_place(order, i);
                    order::lemma_order_is_onto(order, order.len() as int, i);
                    if k != at {
                        assert(order[k] != order[at]);
                    }
                },
                None => {},
            }
        }
    }
}

/// A probe result lands on the entry it was read for, however the list was
/// reordered in the meantime.
pub proof fn law_probe_results_follow_their_track(
    p: model::PlaylistView,
    order: Seq<usize>,
    d: DurationResult,
)
    requires
        p.wf(),
        d.id != 0,
        order::is_order(order, p.rows.len() as int),
    ensures
        duration_landed(order::arranged(p.rows, order), d) == order::arranged(
            duration_landed(p.rows, d),
            order,
        ),
{
    let moved = order::arranged(p.rows, order);
    lemma_moved_row(p, order, d.id);
    lemma_last_row(p.rows, d.id);
    lemma_last_row(moved, d.id);
    assert(duration_landed(p.rows, d).len() == order.len());
    assert(duration_landed(moved, d).len() == order.len());
    assert(duration_landed(moved, d) =~= order::arranged(duration_landed(p.rows, d), order)) by {
        assert forall|k: int| 0 <= k < order.len() implies #[trigger] duration_landed(moved, d)[k]
            == order::arranged(duration_landed(p.rows, d), order)[k] by {
            assert(order[k] < p.rows.len());
            match last_row(p.rows, d.id) {
                Some(i) => {
                    let at = model::new_place(order, i);
                    order::lemma_order_is_onto(order, order.len() as int, i);
                    if k != at {
                        assert(order[k] != order[at]);
                    }
                },
                None => {},
            }
        }
    }
}

/// Where the row with an id stands once the list is taken in an order.
proof fn lemma_moved_row(p: model::PlaylistView, order: Seq<usize>, id: u64)
    requires
        p.wf(),
        id != 0,
        order::is_order(order, p.rows.len() as int),
    ensures
        last_row(order::arranged(p.rows, order), id) == (match last_row(p.rows, id) {
            Some(i) => Some(model::new_place(order, i)),
            None => None,
        }),
{
    let n = p.rows.len() as int;
    let moved = order::arranged(p.rows, order);
    lemma_last_row(p.rows, id);
    lemma_last_row(moved, id);
    assert forall|k: int| 0 <= k < n implies #[trigger] moved[k] == p.rows[order[k] as int] by {
        assert(order[k] < n);
    }
    match last_row(p.rows, id) {
        Some(i) => {
            order::lemma_order_is_onto(order, n, i);
            let at = model::new_place(order, i);
            assert(order[at] == i);
            assert(moved[at].id == id);
            assert forall|k: int| at < k < n implies (#[trigger] moved[k]).id != id by {
                assert(order[k] != order[at]);
                let j = order[k] as int;
                assert(0 <= j < n);
                if j < i {
                    if p.rows[j].id == id {
                        assert(p.rows[j].id != p.rows[i].id);
                    }
                } else {
                    assert(p.rows[j].id != id);
                }
            }
            lemma_last_row_is(moved, id, at);
        },
        None => {
            assert forall|k: int| 0 <= k < n implies (#[trigger] moved[k]).id != id by {
                let j = order[k] as int;
                assert(0 <= j < n);
                assert(p.rows[j].id != id);
            }
            match last_row(moved, id) {
                Some(i) => {
                    assert(moved[i].id == id);
                },
                None => {},
            }
        },
    }
}

impl<B: AudioBackend> SparkampCtx<B> {
    /// Each part is sound in itself.
    pub open spec fn sound(&self) -> bool {
        &&& self.player.wf()
        &&& self.playlist@.wf()
        &&& self.queue.wf()
        &&& self.pending_seek matches Some(f) ==> f <= UNITY_PPB
    }

    /// What every call keeps: each part is sound, and the queue names only
    /// entries that the list has.
    pub open spec fn wf(&self) -> bool {
        &&& self.sound()
        &&& crate::queue::all_live(self.queue@, self.playlist@.rows)
    }
}

/// Which row each id names: the last one that has it.
fn index_rows(playlist: &Playlist) -> (r: HashMap<u64, usize>)
    ensures
        forall|id: u64| #[trigger]
            r@.contains_key(id) == (last_row(playlist@.rows, id) is Some),
        forall|id: u64|
            r@.contains_key(id) ==> last_row(playlist@.rows, id) == Some(#[trigger] r@[id] as int),
{
    let mut out: HashMap<u64, usize> = HashMap::new();
    let n: usize = playlist.len();
    let ghost rows = playlist@.rows;
    let mut i: usize = 0;
    while i < n
        invariant
            i <= n,
            n == rows.len(),
            rows == playlist@.rows,
            forall|id: u64| #[trigger]
                out@.contains_key(id) == (last_row(rows.subrange(0, i as int), id) is Some),
            forall|id: u64|
                out@.contains_key(id) ==> last_row(rows.subrange(0, i as int), id) == Some(
                    #[trigger] out@[id] as int,
                ),
        decreases n - i,
    {
        let ghost head = rows.subrange(0, i + 1);
        assert(head.drop_last() =~= rows.subrange(0, i as int));
        assert(head.last() == rows[i as int]);
        if let Some(t) = playlist.track(i) {
            out.insert(t.id, i);
        }
        i += 1;
    }
    assert(rows.subrange(0, n as int) =~= rows);
    out
}

/// Lands background results on the rows their ids name. A result whose entry is
/// gone is dropped; each of the others counts towards the rows to redraw.
pub fn land_results<B: AudioBackend>(
    ctx: &mut SparkampCtx<B>,
    metas: &Vec<MetaResult>,
    found: &Vec<DurationResult>,
)
    requires
        old(ctx).wf(),
        old(ctx).dirty_count + metas@.len() + found@.len() <= u32::MAX,
    ensures
        final(ctx).wf(),
        final(ctx).playlist@ == (model::PlaylistView {
            rows: durations_landed(metas_landed(old(ctx).playlist@.rows, metas@), found@),
            ..old(ctx).playlist@
        }),
        final(ctx).dirty_count == old(ctx).dirty_count + metas_counted(
            old(ctx).playlist@.rows,
            metas@,
        ) + durations_counted(old(ctx).playlist@.rows, found@),
        *final(ctx) == (SparkampCtx {
            playlist: final(ctx).playlist,
            dirty_count: final(ctx).dirty_count,
            ..*old(ctx)
        }),
{
    if metas.len() == 0 && found.len() == 0 {
        return ;
    }
    let index = index_rows(&ctx.playlist);
    let ghost rows = ctx.playlist@.rows;
    let mut i: usize = 0;
    assert(metas@.subrange(0, 0) =~= Seq::empty());
    while i < metas.len()
        invariant
            i <= metas@.len(),
            rows == old(ctx).playlist@.rows,
            old(ctx).dirty_count + metas@.len() + found@.len() <= u32::MAX,
            forall|id: u64| #[trigger] index@.contains_key(id) == (last_row(rows, id) is Some),
            forall|id: u64|
                index@.contains_key(id) ==> last_row(rows, id) == Some(#[trigger] index@[id] as int),
            ctx.wf(),
            ctx.playlist@ == (model::PlaylistView {
                rows: metas_landed(rows, metas@.subrange(0, i as int)),
                ..old(ctx).playlist@
            }),
            ctx.dirty_count == old(ctx).dirty_count + metas_counted(
                rows,
                metas@.subrange(0, i as int),
            ),
            0 <= metas_counted(rows, metas@.subrange(0, i as int)) <= i,
            *ctx == (SparkampCtx {
                playlist: ctx.playlist,
                dirty_count: ctx.dirty_count,
                ..*old(ctx)
            }),
        decreases metas@.len() - i,
    {
        let m = &metas[i];
        let ghost before = ctx.playlist@.rows;
        proof {
            let head = metas@.subrange(0, i + 1);
            assert(head.drop_last() =~= metas@.subrange(0, i as int));
            assert(head.last() == metas@[i as int]);
            lemma_landing_keeps_ids(rows, metas@.subrange(0, i as int), Seq::empty());
            lemma_last_row_by_ids(before, rows, m.id);
            lemma_last_row(rows, m.id);
            assert(before.len() == model::ids(before).len());
            assert(rows.len() == model::ids(rows).len());
        }
        if let Some(at) = index.get(&m.id) {
            let at: usize = *at;
            if let Some(t) = ctx.playlist.track(at) {
                let mut t = t.clone();
                t.title = m.title.clone();
                t.artist = m.artist.clone();
                t.album_artist = m.album_artist.clone();
                ctx.playlist.set_track(at, t);
            }
            ctx.dirty_count = ctx.dirty_count + 1;
            assert(ctx.playlist@.rows =~= meta_landed(before, m@));
            proof {
                crate::queue::lemma_still_live(ctx.queue@, before, ctx.playlist@.rows);
            }
        }
        i += 1;
    }
    assert(metas@.subrange(0, i as int) =~= metas@);
    let ghost mid = ctx.playlist@.rows;
    let mut j: usize = 0;
    assert(found@.subrange(0, 0) =~= Seq::empty());
    proof {
        lemma_landing_keeps_ids(rows, metas@, Seq::empty());
    }
    while j < found.len()
        invariant
            j <= found@.len(),
            rows == old(ctx).playlist@.rows,
            old(ctx).dirty_count + metas@.len() + found@.len() <= u32::MAX,
            mid == metas_landed(rows, metas@),
            model::ids(mid) == model::ids(rows),
            forall|id: u64| #[trigger] index@.contains_key(id) == (last_row(rows, id) is Some),
            forall|id: u64|
                index@.contains_key(id) ==> last_row(rows, id) == Some(#[trigger] index@[id] as int),
            ctx.wf(),
            ctx.playlist@ == (model::PlaylistView {
                rows: durations_landed(mid, found@.subrange(0, j as int)),
                ..old(ctx).playlist@
            }),
            0 <= metas_counted(rows, metas@) <= metas@.len(),
            ctx.dirty_count == old(ctx).dirty_count + metas_counted(rows, metas@) + durations_counted(
                rows,
                found@.subrange(0, j as int),
            ),
            0 <= durations_counted(rows, found@.subrange(0, j as int)) <= j,
            *ctx == (SparkampCtx {
                playlist: ctx.playlist,
                dirty_count: ctx.dirty_count,
                ..*old(ctx)
            }),
        decreases found@.len() - j,
    {
        let d = found[j];
        let ghost before = ctx.playlist@.rows;
        proof {
            let head = found@.subrange(0, j + 1);
            assert(head.drop_last() =~= found@.subrange(0, j as int));
            assert(head.last() == found@[j as int]);
            lemma_landing_keeps_ids(mid, Seq::empty(), found@.subrange(0, j as int));
            lemma_last_row_by_ids(before, rows, d.id);
            lemma_last_row(rows, d.id);
            assert(before.len() == model::ids(before).len());
            assert(rows.len() == model::ids(rows).len());
        }
        if let Some(at) = index.get(&d.id) {
            let at: usize = *at;
            if let Some(t) = ctx.playlist.track(at) {
                let mut t = t.clone();
                t.duration = Some(d.duration);
                ctx.playlist.set_track(at, t);
            }
            ctx.dirty_count = ctx.dirty_count + 1;
            assert(ctx.playlist@.rows =~= duration_landed(before, d));
            proof {
                crate::queue::lemma_still_live(ctx.queue@, before, ctx.playlist@.rows);
            }
        }
        j += 1;
    }
    assert(found@.subrange(0, j as int) =~= found@);
}

/// A position a fraction, in parts per billion, of the way through a time.
pub open spec fn share_of(total: u64, fraction: u64) -> int {
    (total * fraction) / (UNITY_PPB as int)
}

/// A position a fraction, in parts per billion, of the way through a time.
pub fn share(total: u64, fraction: u64) -> (r: u64)
    requires
        fraction <= UNITY_PPB,
    ensures
        r == share_of(total, fraction),
        r <= total,
{
    assert(0 <= total * fraction <= total * UNITY_PPB) by (nonlinear_arith)
        requires
            0 <= fraction <= UNITY_PPB,
            0 <= total,
    ;
    assert(total * UNITY_PPB <= 0xffff_ffff_ffff_ffff * UNITY_PPB) by (nonlinear_arith)
        requires
            total <= 0xffff_ffff_ffff_ffff,
    ;
    let r: u128 = (total as u128) * (fraction as u128) / (UNITY_PPB as u128);
    proof {
        vstd::arithmetic::div_mod::lemma_div_is_ordered(
            total * fraction,
            total * UNITY_PPB,
            UNITY_PPB as int,
        );
        vstd::arithmetic::div_mod::lemma_div_by_multiple(total as int, UNITY_PPB as int);
    }
    r as u64
}

/// The rows with the current one no longer marked broken.
pub open spec fn current_mended(p: model::PlaylistView) -> model::PlaylistView {
    match p.current_row() {
        Some(t) => model::PlaylistView {
            rows: p.rows.update(p.current, model::TrackView { broken: false, ..t }),
            ..p
        },
        None => p,
    }
}

/// The rows with the current one's length known.
pub open spec fn current_measured(p: model::PlaylistView, duration: u64) -> model::PlaylistView {
    match p.current_row() {
        Some(t) => model::PlaylistView {
            rows: p.rows.update(p.current, model::TrackView { duration: Some(duration), ..t }),
            ..p
        },
        None => p,
    }
}

/// What clearing a stale mark leaves of the session it found.
pub open spec fn mended<B: AudioBackend>(after: SparkampCtx<B>, before: SparkampCtx<B>) -> bool {
    let stale = before.player.settings().state == PlayerState::Playing && (
    before.playlist@.current_row() matches Some(t) && t.broken);
    &&& after == (SparkampCtx {
        playlist: after.playlist,
        dirty_count: after.dirty_count,
        ..before
    })
    &&& after.dirty_count == before.dirty_count + if stale {
        1int
    } else {
        0int
    }
    &&& after.playlist@ == (if stale {
        current_mended(before.playlist@)
    } else {
        before.playlist@
    })
}

/// A track that plays is not broken: clears a mark left over from an earlier
/// load that failed.
pub fn mend_current<B: AudioBackend>(ctx: &mut SparkampCtx<B>)
    requires
        old(ctx).wf(),
        old(ctx).dirty_count < u32::MAX,
    ensures
        final(ctx).wf(),
        mended(*final(ctx), *old(ctx)),
{
    if ctx.player.state() == PlayerState::Playing {
        let at: usize = ctx.playlist.current_index();
        if let Some(t) = ctx.playlist.track(at) {
            if t.broken {
                let mut t = t.clone();
                t.broken = false;
                ctx.playlist.set_track(at, t);
                ctx.dirty_count = ctx.dirty_count + 1;
                assert(ctx.playlist@.rows =~= current_mended(old(ctx).playlist@).rows);
                proof {
                    crate::queue::lemma_still_live(ctx.queue@, old(ctx).playlist@.rows, ctx.playlist@.rows);
                }
            }
        }
    }
}

/// What a session reports ten times a second, in nanoseconds.
#[derive(Debug, Clone, Copy, PartialEq, Eq, Structural)]
pub struct PositionReport {
    pub position: u64,
    /// `None` when nothing ever reported one.
    pub duration: Option<u64>,
}

/// What a seek that waited for a duration leaves of the session it found, once
/// the loaded track says that it lasts `total`.
pub open spec fn sought_pending<B: AudioBackend>(
    after: SparkampCtx<B>,
    before: SparkampCtx<B>,
    total: Option<u64>,
) -> bool {
    &&& after.player.settings() == before.player.settings()
    &&& after.player.visual() == before.player.visual()
    &&& after.player.audio().level() == before.player.audio().level()
    &&& match (before.pending_seek, total) {
        (Some(f), Some(t)) => exists|r: Result<(), BackendError>| #[trigger]
            B::step(
                before.player.audio(),
                Call::Seek(share_of(t, f) as u64, r),
                after.player.audio(),
            ),
        _ => after.player == before.player,
    }
    &&& after == (SparkampCtx {
        player: after.player,
        pending_seek: if total is Some {
            None
        } else {
            before.pending_seek
        },
        ..before
    })
}

/// Makes a seek that waited for a duration, once there is one.
pub fn seek_pending<B: AudioBackend>(ctx: &mut SparkampCtx<B>, total: Option<u64>)
    requires
        old(ctx).wf(),
    ensures
        final(ctx).wf(),
        sought_pending(*final(ctx), *old(ctx), total),
{
    if let Some(total) = total {
        if let Some(fraction) = ctx.pending_seek {
            let _ = ctx.player.seek(share(total, fraction));
            ctx.pending_seek = None;
        }
    }
}

/// What keeping a duration leaves of the session it found: the session and the
/// current row remember it.
pub open spec fn remembered<B: AudioBackend>(
    after: SparkampCtx<B>,
    before: SparkampCtx<B>,
    total: Option<u64>,
) -> bool {
    &&& after.playlist@ == (match total {
        Some(t) => current_measured(before.playlist@, t),
        None => before.playlist@,
    })
    &&& after == (SparkampCtx {
        playlist: after.playlist,
        last_known_duration: if total is Some {
            total
        } else {
            before.last_known_duration
        },
        ..before
    })
}

/// Remembers the duration that the loaded track reports.
pub fn remember_duration<B: AudioBackend>(ctx: &mut SparkampCtx<B>, total: Option<u64>)
    requires
        old(ctx).wf(),
    ensures
        final(ctx).wf(),
        remembered(*final(ctx), *old(ctx), total),
{
    if let Some(total) = total {
        ctx.last_known_duration = Some(total);
        let at: usize = ctx.playlist.current_index();
        if let Some(t) = ctx.playlist.track(at) {
            let mut t = t.clone();
            t.duration = Some(total);
            ctx.playlist.set_track(at, t);
        }
        assert(ctx.playlist@.rows =~= current_measured(old(ctx).playlist@, total).rows);
        proof {
            crate::queue::lemma_still_live(ctx.queue@, old(ctx).playlist@.rows, ctx.playlist@.rows);
        }
    }
}

/// What is reported on a reading of the clock, where `known` is the last duration
/// there was.
pub open spec fn report_on(now: Timeline, known: Option<u64>) -> PositionReport {
    PositionReport {
        position: match now.position {
            Some(pos) => pos,
            None => 0,
        },
        duration: match now.duration {
            Some(total) => Some(total),
            None => known,
        },
    }
}

/// What is reported on a reading of the clock.
pub fn position_report<B: AudioBackend>(ctx: &SparkampCtx<B>, now: Timeline) -> (r: PositionReport)
    ensures
        r == report_on(now, ctx.last_known_duration),
{
    PositionReport {
        position: match now.position {
            Some(pos) => pos,
            None => 0,
        },
        duration: match now.duration {
            Some(total) => Some(total),
            None => ctx.last_known_duration,
        },
    }
}

/// What the end of a tick leaves of the session it found, and what it reports:
/// the clock that is reported is read once the seek is made.
pub open spec fn settled<B: AudioBackend>(
    after: SparkampCtx<B>,
    before: SparkampCtx<B>,
    r: PositionReport,
) -> bool {
    exists|mid: SparkampCtx<B>, first: Option<u64>, second: Option<u64>, now: Timeline|
        {
            &&& before.player.may_last(first)
            &&& #[trigger] sought_pending(mid, before, first)
            &&& mid.player.may_last(second)
            &&& #[trigger] remembered(after, mid, second)
            &&& #[trigger] after.player.may_read(now)
            &&& r == report_on(now, after.last_known_duration)
        }
}

/// The end of a tick, once the events are drained: a seek that waited for a
/// duration is made, the duration is remembered, and the position is reported as
/// it is after that seek.
pub fn settle<B: AudioBackend>(ctx: &mut SparkampCtx<B>) -> (r: PositionReport)
    requires
        old(ctx).wf(),
    ensures
        final(ctx).wf(),
        settled(*final(ctx), *old(ctx), r),
{
    let first = ctx.player.duration();
    seek_pending(ctx, first);
    let ghost mid = *ctx;
    let second = ctx.player.duration();
    remember_duration(ctx, second);
    let now = ctx.player.timeline();
    proof {
        assert(sought_pending(mid, *old(ctx), first));
        assert(remembered(*ctx, mid, second));
        assert(ctx.player.may_read(now));
    }
    position_report(ctx, now)
}

/// What one tick found.
pub struct TickReport {
    /// What the player signalled, oldest first.
    pub events: Vec<BusEvent>,
    pub report: PositionReport,
}

/// Whether polling `before`, once for each of `events`, hands these out in turn
/// and leaves `after`.
pub open spec fn polled<B: AudioBackend>(before: B, events: Seq<BusEvent>, after: B) -> bool
    decreases events.len(),
{
    if events.len() == 0 {
        after == before
    } else {
        exists|mid: B|
            {
                &&& #[trigger] B::step(mid, Call::PollEvent(Some(events.last())), after)
                &&& polled(before, events.drop_last(), mid)
            }
    }
}

/// A session part of the way through draining, once `events` came.
pub open spec fn draining<B: AudioBackend>(
    after: SparkampCtx<B>,
    before: SparkampCtx<B>,
    events: Seq<BusEvent>,
) -> bool {
    &&& after == (SparkampCtx { player: after.player, ..before })
    &&& after.player.visual() == before.player.visual()
    &&& after.player.audio().level() == before.player.audio().level()
    &&& after.player.audio().installed() == before.player.audio().installed()
    &&& after.player.audio().deferred() == before.player.audio().deferred()
    &&& after.player.audio().curve() == before.player.audio().curve()
    &&& after.player.settings() == (if events.len() > 0 {
        crate::engine::Settings { state: PlayerState::Stopped, ..before.player.settings() }
    } else {
        before.player.settings()
    })
}

/// What draining the events leaves of the session it found.
pub open spec fn drained<B: AudioBackend>(
    after: SparkampCtx<B>,
    before: SparkampCtx<B>,
    events: Seq<BusEvent>,
) -> bool {
    &&& draining(after, before, events)
    &&& exists|dry: B| #[trigger]
        polled(before.player.audio(), events, dry) && B::step(
            dry,
            Call::PollEvent(None),
            after.player.audio(),
        )
}

/// Drains what the player signals, oldest first, until there is nothing more.
/// Either event ends playback.
pub fn drain_events<B: AudioBackend>(ctx: &mut SparkampCtx<B>) -> (r: Vec<BusEvent>)
    requires
        old(ctx).wf(),
    ensures
        final(ctx).wf(),
        drained(*final(ctx), *old(ctx), r@),
{
    let mut out: Vec<BusEvent> = Vec::new();
    loop
        invariant
            ctx.wf(),
            draining(*ctx, *old(ctx), out@),
            polled(old(ctx).player.audio(), out@, ctx.player.audio()),
        decreases ctx.player.audio().backlog(),
    {
        let ghost came = out@;
        let ghost mid = ctx.player.audio();
        match ctx.player.poll_bus() {
            Some(event) => {
                out.push(event);
                assert(out@.drop_last() =~= came);
                assert(polled(old(ctx).player.audio(), out@.drop_last(), mid));
                assert(B::step(mid, Call::PollEvent(Some(out@.last())), ctx.player.audio()));
                assert(polled(old(ctx).player.audio(), out@, ctx.player.audio()));
            },
            None => {
                assert(polled(old(ctx).player.audio(), out@, mid));
                return out;
            },
        }
    }
}

/// What the start of a tick leaves of the session it found.
pub open spec fn begun<B: AudioBackend>(
    after: SparkampCtx<B>,
    before: SparkampCtx<B>,
    metas: Seq<MetaResult>,
    found: Seq<DurationResult>,
    now: u64,
) -> bool {
    &&& after.playlist@ == (model::PlaylistView {
        rows: durations_landed(metas_landed(before.playlist@.rows, metas), found),
        ..before.playlist@
    })
    &&& after.dirty_count == before.dirty_count + metas_counted(before.playlist@.rows, metas)
        + durations_counted(before.playlist@.rows, found)
    &&& exists|finished: bool| #[trigger] after.player.fade_polled(&before.player, now, finished)
    &&& after == (SparkampCtx {
        player: after.player,
        playlist: after.playlist,
        dirty_count: after.dirty_count,
        ..before
    })
}

/// The start of a tick: background results land, and a stop with fadeout moves
/// on, ahead of the events, so that all that follows reads one state.
pub fn begin_tick<B: AudioBackend>(
    ctx: &mut SparkampCtx<B>,
    metas: &Vec<MetaResult>,
    found: &Vec<DurationResult>,
    now: u64,
)
    requires
        old(ctx).wf(),
        old(ctx).dirty_count + metas@.len() + found@.len() <= u32::MAX,
    ensures
        final(ctx).wf(),
        begun(*final(ctx), *old(ctx), metas@, found@, now),
{
    land_results(ctx, metas, found);
    let _ = ctx.player.poll_fadeout(now);
}

/// What a tick leaves of the session it found, and what it reports: its four
/// parts, each on what the one before it left.
pub open spec fn ticked<B: AudioBackend>(
    after: SparkampCtx<B>,
    before: SparkampCtx<B>,
    metas: Seq<MetaResult>,
    found: Seq<DurationResult>,
    now: u64,
    r: TickReport,
) -> bool {
    exists|fresh: SparkampCtx<B>, quiet: SparkampCtx<B>, whole: SparkampCtx<B>|
        {
            &&& #[trigger] begun(fresh, before, metas, found, now)
            &&& #[trigger] drained(quiet, fresh, r.events@)
            &&& mended(whole, quiet)
            &&& #[trigger] settled(after, whole, r.report)
        }
}

/// One tick of a session whose listeners do not call back into it: results
/// land, the fade moves on, the events are drained, a track that plays is no
/// longer marked broken, and the position is reported.
pub fn sparkamp_tick<B: AudioBackend>(
    ctx: &mut SparkampCtx<B>,
    metas: &Vec<MetaResult>,
    found: &Vec<DurationResult>,
    now: u64,
) -> (r: TickReport)
    requires
        old(ctx).wf(),
        old(ctx).dirty_count + metas@.len() + found@.len() < u32::MAX,
    ensures
        final(ctx).wf(),
        ticked(*final(ctx), *old(ctx), metas@, found@, now, r),
{
    begin_tick(ctx, metas, found, now);
    let ghost fresh = *ctx;
    proof {
        lemma_counts(old(ctx).playlist@.rows, metas@, found@);
    }
    let events = drain_events(ctx);
    let ghost quiet = *ctx;
    mend_current(ctx);
    let ghost whole = *ctx;
    let report = settle(ctx);
    let r = TickReport { events, report };
    proof {
        assert(begun(fresh, *old(ctx), metas@, found@, now));
        assert(drained(quiet, fresh, r.events@));
        assert(settled(*ctx, whole, r.report));
    }
    r
}

proof fn lemma_counts(
    rows: Seq<model::TrackView>,
    metas: Seq<MetaResult>,
    found: Seq<DurationResult>,
)
    ensures
        0 <= metas_counted(rows, metas) <= metas.len(),
        0 <= durations_counted(rows, found) <= found.len(),
    decreases metas.len() + found.len(),
{
    if metas.len() > 0 {
        lemma_counts(rows, metas.drop_last(), Seq::empty());
    }
    if found.len() > 0 {
        lemma_counts(rows, Seq::empty(), found.drop_last());
    }
}

/// What is said of a track that could not be loaded.
pub open spec fn load_complaint(uri: Seq<char>, message: Seq<char>) -> Seq<char> {
    "[sparkamp] could not load "@ + uri + ": "@ + message
}

/// What is said of a load: nothing of one that went well, and of one that failed
/// the error that came back.
pub open spec fn reported(uri: Seq<char>, r: Result<(), BackendError>, said: Option<String>) -> bool {
    match r {
        Ok(_) => said is None,
        Err(e) => said matches Some(text) && text@ == load_complaint(uri, e.message@),
    }
}

/// A player that loaded a URI, and what was said of it.
pub open spec fn loaded_saying<B: AudioBackend>(
    after: Player<B>,
    before: Player<B>,
    uri: Seq<char>,
    said: Option<String>,
) -> bool {
    exists|r: Result<(), BackendError>| #[trigger]
        after.load_settled(&before, uri, r) && reported(uri, r, said)
}

/// A player that loaded a URI and was asked to play, and what was said of the
/// load.
pub open spec fn started_saying<B: AudioBackend>(
    after: Player<B>,
    before: Player<B>,
    uri: Seq<char>,
    said: Option<String>,
) -> bool {
    exists|r: Result<(), BackendError>| #[trigger]
        after.started(&before, uri, r) && reported(uri, r, said)
}

/// A player that was primed with a gain, loaded a URI and was asked to play, and
/// what was said of the load.
pub open spec fn primed_saying<B: AudioBackend>(
    after: Player<B>,
    before: Player<B>,
    uri: Seq<char>,
    gain: Option<i64>,
    said: Option<String>,
) -> bool {
    exists|r: Result<(), BackendError>| #[trigger]
        after.started_primed(&before, uri, gain, r) && reported(uri, r, said)
}

/// Loads a URI, and says so when it fails, with the error that came back.
pub fn load_or_report<B: AudioBackend>(player: &mut Player<B>, uri: &str) -> (r: Option<String>)
    requires
        old(player).wf(),
    ensures
        final(player).wf(),
        loaded_saying(*final(player), *old(player), uri@, r),
{
    let answer = player.load(uri);
    assert(player.load_settled(old(player), uri@, answer));
    let said = match &answer {
        Ok(_) => None,
        Err(e) => {
            let mut said = "[sparkamp] could not load ".to_owned();
            said.append(uri);
            said.append(": ");
            said.append(e.message.as_str());
            Some(said)
        },
    };
    assert(reported(uri@, answer, said));
    said
}

/// Loading, as it was reported, and then playing is starting.
pub proof fn lemma_started<B: AudioBackend>(
    after: Player<B>,
    mid: Player<B>,
    before: Player<B>,
    uri: Seq<char>,
    said: Option<String>,
    played: Result<(), BackendError>,
)
    requires
        loaded_saying(mid, before, uri, said),
        after.play_settled(&mid, played),
    ensures
        started_saying(after, before, uri, said),
{
    let r = choose|r: Result<(), BackendError>| #[trigger]
        mid.load_settled(&before, uri, r) && reported(uri, r, said);
    assert(after.started(&before, uri, r));
}

/// The gains that the library holds for a track, in millionths of a decibel.
#[derive(Debug, Clone, Copy, PartialEq, Eq, Structural)]
pub struct Gains {
    /// What is played where the track's own gain is asked for.
    pub track: Option<i64>,
    /// What is played where the album's gain is asked for.
    pub album: Option<i64>,
}

/// The gain that the settings ask for.
pub open spec fn gain_in(set: config::PlaybackConfig, gains: Gains) -> Option<i64> {
    if config::uses_album_gain(set.replaygain.source, set.shuffle_enabled) {
        gains.album
    } else {
        gains.track
    }
}

/// Primes the player with the gain that the library holds for the current
/// track. To be called right before a load, which uses the value up.
pub fn prime_rg_for_current<B: AudioBackend>(ctx: &mut SparkampCtx<B>, gains: Gains)
    requires
        old(ctx).wf(),
    ensures
        final(ctx).wf(),
        *final(ctx) == (SparkampCtx { player: final(ctx).player, ..*old(ctx) }),
        if old(ctx).playlist@.current_row() is Some {
            final(ctx).player.primed(
                &old(ctx).player,
                gain_in(old(ctx).config.playback, gains),
            )
        } else {
            final(ctx).player == old(ctx).player
        },
{
    if ctx.playlist.current().is_some() {
        let album = rg_album_mode(
            ctx.config.playback.replaygain.source,
            ctx.config.playback.shuffle_enabled,
        );
        ctx.player.set_rg_db_gain(
            if album {
                gains.album
            } else {
                gains.track
            },
        );
    }
}

impl<B: AudioBackend> SparkampCtx<B> {
    /// The session once its current track was loaded, primed with its gain, and
    /// played; nothing but the player changed.
    pub open spec fn current_started(
        &self,
        before: &Self,
        gains: Gains,
        said: Option<String>,
    ) -> bool {
        &&& before.playlist@.current_row() matches Some(t) && primed_saying(
            self.player,
            before.player,
            model::uri_of(t.path),
            gain_in(before.config.playback, gains),
            said,
        )
        &&& *self == (SparkampCtx { player: self.player, ..*before })
    }
}

/// Plays the current track from its start, with the gain that the library holds
/// for it.
pub fn start_current<B: AudioBackend>(ctx: &mut SparkampCtx<B>, gains: Gains) -> (r: Option<
    String,
>)
    requires
        old(ctx).wf(),
        old(ctx).playlist@.current_row() is Some,
    ensures
        final(ctx).wf(),
        final(ctx).current_started(old(ctx), gains, r),
{
    let uri = match ctx.playlist.current() {
        Some(t) => path_uri(t.path.as_str()),
        None => "".to_owned(),
    };
    prime_rg_for_current(ctx, gains);
    let ghost primed = ctx.player;
    let r = load_or_report(&mut ctx.player, uri.as_str());
    let ghost loaded = ctx.player;
    let played = ctx.player.play();
    proof {
        let gain = gain_in(old(ctx).config.playback, gains);
        lemma_started(ctx.player, loaded, primed, uri@, r, played);
        assert(primed.primed(&old(ctx).player, gain));
        let answer = choose|answer: Result<(), BackendError>| #[trigger]
            ctx.player.started(&primed, uri@, answer) && reported(uri@, answer, r);
        assert(ctx.player.started_primed(&old(ctx).player, uri@, gain, answer));
    }
    r
}

/// A player set up by the playback settings.
pub open spec fn set_up<B: AudioBackend>(
    after: Player<B>,
    before: Player<B>,
    set: config::PlaybackConfig,
) -> bool {
    let gain = set.replaygain;
    &&& after.wf()
    &&& after.settings() == (crate::engine::Settings {
        rg: RgChain {
            enabled: gain.enabled,
            clip_protection: gain.clip_protection,
            fallback_db: gain.fallback_db,
        },
        track_fallback_db: if gain.fallback_db != before.settings().rg.fallback_db {
            None
        } else {
            before.settings().track_fallback_db
        },
        album_mode: config::uses_album_gain(gain.source, set.shuffle_enabled),
        volume: if set.volume <= UNITY_PPB {
            set.volume
        } else {
            UNITY_PPB
        },
        reload_pending: after.settings().reload_pending,
        ..before.settings()
    })
    &&& after.level_in_step()
    &&& after.settings().caps.normalization && after.settings().reload_pending
        ==> after.audio().deferred() == Some(after.settings().wanted())
    &&& after.settings().caps.normalization && !after.settings().reload_pending
        ==> backend::serves(after.audio().installed(), after.settings().wanted())
        && after.audio().deferred() is None
    &&& tuned_path(before.audio(), after.audio(), before.settings(), after.settings())
}

/// The calls that bring a normalization into force: with the chain, and then with
/// the choice of gain as well.
pub open spec fn shaped_path<B: AudioBackend>(
    before: B,
    after: B,
    was: crate::engine::Settings,
    is: crate::engine::Settings,
) -> bool {
    let chain = crate::engine::Settings {
        rg: is.rg,
        track_fallback_db: is.track_fallback_db,
        ..was
    };
    exists|mid: B, a: Applied, b: Applied|
        {
            &&& #[trigger] B::step(before, Call::SetNormalization(chain.wanted(), a), mid)
            &&& #[trigger] B::step(mid, Call::SetNormalization(is.wanted(), b), after)
            &&& is.reload_pending == (b == Applied::AtNextLoad)
        }
}

/// The calls that setting a player up makes: the normalization, and then the
/// level.
pub open spec fn tuned_path<B: AudioBackend>(
    before: B,
    after: B,
    was: crate::engine::Settings,
    is: crate::engine::Settings,
) -> bool {
    exists|shaped: B|
        {
            &&& #[trigger] B::step(shaped, Call::SetOutputGain(is.gain()), after)
            &&& shaped_path(before, shaped, was, is)
        }
}

/// A stored volume as a level the player takes.
fn stored_volume(volume: u64) -> (r: i64)
    ensures
        r == (if volume <= UNITY_PPB {
            volume
        } else {
            UNITY_PPB
        }),
{
    if volume <= UNITY_PPB {
        volume as i64
    } else {
        UNITY_PPB as i64
    }
}

/// A fresh session: the settings and the last playlist where they could be
/// read, the saved normalization and volume in force, the current track loaded
/// and nothing playing.
pub fn sparkamp_create<B: AudioBackend>(
    player: Player<B>,
    config: Option<Config>,
    playlist: Option<Playlist>,
) -> (r: (SparkampCtx<B>, Option<String>))
    requires
        player.wf(),
        playlist matches Some(p) ==> p@.wf(),
    ensures
        r.0.wf(),
        config matches Some(c) ==> r.0.config == c,
        config is None ==> config::is_default(r.0.config),
        playlist matches Some(p) ==> r.0.playlist == p,
        playlist is None ==> r.0.playlist@.rows.len() == 0,
        r.0.shuffle_state.enabled == r.0.config.playback.shuffle_enabled,
        r.0.shuffle_state.played() == Seq::<usize>::empty(),
        r.0.shuffle_state.back == 0,
        r.0.queue@ == Seq::<u64>::empty(),
        r.0.dirty_count == 0,
        r.0.last_known_duration is None,
        r.0.pending_seek is None,
        match r.0.playlist@.current_row() {
            None => r.1 is None && set_up(r.0.player, player, r.0.config.playback),
            Some(t) => exists|mid: Player<B>|
                {
                    &&& #[trigger] set_up(mid, player, r.0.config.playback)
                    &&& loaded_saying(r.0.player, mid, model::uri_of(t.path), r.1)
                },
        },
{
    let config = match config {
        Some(c) => c,
        None => Config::default(),
    };
    let playlist = match playlist {
        Some(p) => p,
        None => Playlist::new(),
    };
    let mut shuffle_state = ShuffleState::new();
    shuffle_state.enabled = config.playback.shuffle_enabled;
    let ghost before = player;
    let mut player = player;
    let gain = config.playback.replaygain;
    player.set_replaygain(
        RgChain {
            enabled: gain.enabled,
            clip_protection: gain.clip_protection,
            fallback_db: gain.fallback_db,
        },
    );
    player.set_rg_album_mode(rg_album_mode(gain.source, config.playback.shuffle_enabled));
    let ghost shaped = player.audio();
    player.set_volume(stored_volume(config.playback.volume));
    assert(shaped_path(before.audio(), shaped, before.settings(), player.settings()));
    assert(tuned_path(before.audio(), player.audio(), before.settings(), player.settings()));
    assert(set_up(player, before, config.playback));
    let mut report: Option<String> = None;
    if let Some(t) = playlist.current() {
        let uri = path_uri(t.path.as_str());
        report = load_or_report(&mut player, uri.as_str());
    }
    (
        SparkampCtx {
            player,
            playlist,
            config,
            shuffle_state,
            queue: Queue::new(),
            dirty_count: 0,
            last_known_duration: None,
            pending_seek: None,
        },
        report,
    )
}

/// A share of a time is the part of it that the fraction names, rounded down: none of it
/// at nought, all of it at one, and in between within a nanosecond.
pub proof fn law_a_share_is_the_part_it_names(total: u64, fraction: u64)
    requires
        fraction <= 1_000_000_000,
    ensures
        0 <= share_of(total, fraction) <= total,
        share_of(total, fraction) * 1_000_000_000 <= total * fraction < (share_of(total, fraction)
            + 1) * 1_000_000_000,
        fraction == 0 ==> share_of(total, fraction) == 0,
        fraction == 1_000_000_000 ==> share_of(total, fraction) == total,
{
    let x = total * fraction;
    assert(0 <= x <= total * 1_000_000_000) by (nonlinear_arith)
        requires
            x == total * fraction,
            0 <= fraction <= 1_000_000_000,
            0 <= total,
    ;
    if fraction == 0 {
        assert(x == 0) by (nonlinear_arith)
            requires
                x == total * fraction,
                fraction == 0,
        ;
    }
    if fraction == 1_000_000_000 {
        assert(x == total * 1_000_000_000);
    }
}

/// A track that starts is primed with the gain that the settings ask for: the album's
/// with source album, whatever the track's is; the track's with source track, whatever
/// the album's is; with the automatic source the track's under shuffle, and the album's
/// otherwise.
pub proof fn law_a_track_is_primed_with_the_gain_asked_for<B: AudioBackend>(
    after: SparkampCtx<B>,
    before: SparkampCtx<B>,
    gains: Gains,
    said: Option<String>,
)
    requires
        after.current_started(&before, gains, said),
    ensures
        ({
            let set = before.config.playback;
            let primed_with = |gain: Option<i64>|
                exists|mid: Player<B>, uri: Seq<char>, r: Result<(), BackendError>|
                    {
                        &&& mid.settings().db_gain == gain
                        &&& mid.audio() == before.player.audio()
                        &&& #[trigger] after.player.started(&mid, uri, r)
                    };
            &&& set.replaygain.source == config::RgSource::Album ==> primed_with(gains.album)
            &&& set.replaygain.source == config::RgSource::Track ==> primed_with(gains.track)
            &&& set.replaygain.source == config::RgSource::Automatic && set.shuffle_enabled
                ==> primed_with(gains.track)
            &&& set.replaygain.source == config::RgSource::Automatic && !set.shuffle_enabled
                ==> primed_with(gains.album)
        }),
{
    let t = before.playlist@.current_row().unwrap();
    let uri = model::uri_of(t.path);
    let gain = gain_in(before.config.playback, gains);
    let r = choose|r: Result<(), BackendError>| #[trigger]
        after.player.started_primed(&before.player, uri, gain, r) && reported(uri, r, said);
    let mid = choose|mid: Player<B>| #[trigger]
        mid.primed(&before.player, gain) && after.player.started(&mid, uri, r);
    assert(after.player.started(&mid, uri, r));
}

/// A gain that is primed reaches the audio path: a backend that can normalize, once it
/// has opened the track, is to play it with just that gain where the file has none of
/// its own, and with the configured one where none was primed.
pub proof fn law_a_primed_gain_is_played_with<B: AudioBackend>(
    after: Player<B>,
    before: Player<B>,
    uri: Seq<char>,
    gain: Option<i64>,
)
    requires
        after.started_primed(&before, uri, gain, Ok(())),
        before.settings().caps.normalization,
    ensures
        after.audio().installed().fallback_db == (match gain {
            Some(db) => db,
            None => before.settings().rg.fallback_db,
        }),
        after.audio().installed().album_mode == before.settings().album_mode,
        after.settings().db_gain is None,
{
}

/// The gain that is primed is the album's exactly where the normalization handed over by
/// the same settings prefers album gains, so the two never part.
pub proof fn law_the_primed_gain_agrees_with_the_album_mode<B: AudioBackend>(
    set: config::PlaybackConfig,
    after: Player<B>,
    before: Player<B>,
    gains: Gains,
)
    requires
        set_up(after, before, set),
        gains.album != gains.track,
    ensures
        (gain_in(set, gains) == gains.album) == after.settings().wanted().album_mode,
        (gain_in(set, gains) == gains.track) == !after.settings().wanted().album_mode,
{
}

/// The settings of a session reach its player: the volume, held to unity, and every part
/// of the normalization.
pub proof fn law_the_saved_settings_are_in_force<B: AudioBackend>(
    after: Player<B>,
    before: Player<B>,
    set: config::PlaybackConfig,
)
    requires
        set_up(after, before, set),
    ensures
        set.volume <= 1_000_000_000 ==> after.settings().volume == set.volume,
        set.volume > 1_000_000_000 ==> after.settings().volume == 1_000_000_000,
        after.settings().wanted().enabled == set.replaygain.enabled,
        after.settings().wanted().clip_protection == set.replaygain.clip_protection,
        set.replaygain.fallback_db != before.settings().rg.fallback_db
            ==> after.settings().wanted().fallback_db == set.replaygain.fallback_db,
        set.replaygain.source == config::RgSource::Album ==> after.settings().album_mode,
        set.replaygain.source == config::RgSource::Track ==> !after.settings().album_mode,
        set.replaygain.source == config::RgSource::Automatic ==> after.settings().album_mode
            == !set.shuffle_enabled,
        after.settings().preamp == before.settings().preamp,
        after.settings().state == before.settings().state,
{
}

/// What is said of a load that failed names what was to be loaded and why it was not; of
/// one that went well nothing is said.
pub proof fn law_a_failed_load_is_named(
    uri: Seq<char>,
    r: Result<(), BackendError>,
    said: Option<String>,
)
    requires
        reported(uri, r, said),
    ensures
        r is Ok ==> said is None,
        r matches Err(e) ==> {
            &&& said matches Some(text)
            &&& text@.len() >= uri.len() + e.message@.len()
            &&& text@.subrange(26, 26 + uri.len() as int) == uri
            &&& text@.subrange(text@.len() - e.message@.len(), text@.len() as int) == e.message@
        },
{
    reveal_strlit("[sparkamp] could not load ");
    reveal_strlit(": ");
    if let Err(e) = r {
        let text = load_complaint(uri, e.message@);
        assert(text.subrange(26, 26 + uri.len() as int) =~= uri);
        assert(text.subrange(text.len() - e.message@.len(), text.len() as int) =~= e.message@);
    }
}

/// A pending seek is made to the part of the track that it names, once, when a length is
/// known; until then it waits.
pub proof fn law_a_pending_seek_is_made_once<B: AudioBackend>(
    after: SparkampCtx<B>,
    before: SparkampCtx<B>,
    total: Option<u64>,
)
    requires
        sought_pending(after, before, total),
        before.pending_seek matches Some(f) ==> f <= 1_000_000_000,
    ensures
        total is None ==> after == before || (after.pending_seek == before.pending_seek
            && after.player == before.player),
        total is Some ==> after.pending_seek is None,
        total is Some && before.pending_seek is None ==> after.player == before.player,
        (total matches Some(t) && before.pending_seek matches Some(f)) ==> exists|
            to: u64,
            r: Result<(), BackendError>,
        |
            {
                &&& #[trigger] B::step(
                    before.player.audio(),
                    Call::Seek(to, r),
                    after.player.audio(),
                )
                &&& to <= total.unwrap()
                &&& to * 1_000_000_000 <= total.unwrap() * before.pending_seek.unwrap() < (to + 1)
                    * 1_000_000_000
            },
{
    if total is Some && before.pending_seek is Some {
        let t = total.unwrap();
        let f = before.pending_seek.unwrap();
        law_a_share_is_the_part_it_names(t, f);
        let r = choose|r: Result<(), BackendError>| #[trigger]
            B::step(
                before.player.audio(),
                Call::Seek(share_of(t, f) as u64, r),
                after.player.audio(),
            );
        let to = share_of(t, f) as u64;
        assert(B::step(before.player.audio(), Call::Seek(to, r), after.player.audio()));
    }
}

/// A length that is reported is remembered, for the session and for the current row, and
/// for no other row; nothing else of a row changes.
pub proof fn law_a_length_is_kept_for_the_current_row<B: AudioBackend>(
    after: SparkampCtx<B>,
    before: SparkampCtx<B>,
    total: u64,
    i: int,
)
    requires
        remembered(after, before, Some(total)),
        0 <= i < before.playlist@.rows.len(),
        0 <= before.playlist@.current,
    ensures
        after.last_known_duration == Some(total),
        after.playlist@.rows.len() == before.playlist@.rows.len(),
        i == before.playlist@.current ==> after.playlist@.rows[i].duration == Some(total),
        i != before.playlist@.current ==> after.playlist@.rows[i] == before.playlist@.rows[i],
        after.playlist@.rows[i].path == before.playlist@.rows[i].path,
        after.playlist@.rows[i].id == before.playlist@.rows[i].id,
        after.playlist@.rows[i].broken == before.playlist@.rows[i].broken,
{
}

/// What is reported is where the clock stands, and a length that the clock does not give
/// is the last one known.
pub proof fn law_a_report_is_what_the_clock_reads(now: Timeline, known: Option<u64>)
    ensures
        now.position matches Some(p) ==> report_on(now, known).position == p,
        now.position is None ==> report_on(now, known).position == 0,
        now.duration is Some ==> report_on(now, known).duration == now.duration,
        now.duration is None ==> report_on(now, known).duration == known,
{
}

/// A track that plays is no longer marked broken, and no other row changes its mark.
pub proof fn law_a_track_that_plays_is_not_broken<B: AudioBackend>(
    after: SparkampCtx<B>,
    before: SparkampCtx<B>,
    i: int,
)
    requires
        mended(after, before),
        0 <= i < before.playlist@.rows.len(),
        0 <= before.playlist@.current,
    ensures
        after.playlist@.rows.len() == before.playlist@.rows.len(),
        before.player.settings().state == PlayerState::Playing && i == before.playlist@.current
            ==> !after.playlist@.rows[i].broken,
        i != before.playlist@.current || before.player.settings().state != PlayerState::Playing
            ==> after.playlist@.rows[i] == before.playlist@.rows[i],
        after.playlist@.rows[i].path == before.playlist@.rows[i].path,
        (after.dirty_count != before.dirty_count) == (after.playlist@.rows
            != before.playlist@.rows),
{
    let p = before.playlist@;
    if before.player.settings().state == PlayerState::Playing && p.current_row() is Some {
        let t = p.current_row().unwrap();
        if t.broken {
            assert(!after.playlist@.rows[p.current].broken);
        }
    }
}

/// Draining hands on every event, and any of them ends playback; with none the player
/// goes on as it was.
pub proof fn law_an_event_ends_playback<B: AudioBackend>(
    after: SparkampCtx<B>,
    before: SparkampCtx<B>,
    events: Seq<BusEvent>,
)
    requires
        drained(after, before, events),
    ensures
        events.len() > 0 ==> after.player.settings().state == PlayerState::Stopped,
        events.len() == 0 ==> after.player.settings() == before.player.settings(),
        after.playlist == before.playlist,
        after.player.settings().volume == before.player.settings().volume,
{
}

/// What was read of an entry lands on the row of that entry: the tags on its tags, the length
/// on its length. The rest of the row and every other row stay as they are.
pub proof fn law_a_result_lands_on_its_own_row(
    rows: Seq<model::TrackView>,
    m: MetaView,
    d: DurationResult,
    i: int,
    k: int,
)
    requires
        0 <= i < rows.len(),
        0 <= k < rows.len(),
        k != i,
        m.id == rows[i].id,
        d.id == rows[i].id,
        forall|j: int| 0 <= j < rows.len() && j != i ==> (#[trigger] rows[j]).id != rows[i].id,
    ensures
        meta_landed(rows, m).len() == rows.len(),
        meta_landed(rows, m)[i].title == m.title,
        meta_landed(rows, m)[i].artist == m.artist,
        meta_landed(rows, m)[i].album_artist == m.album_artist,
        meta_landed(rows, m)[i].path == rows[i].path,
        meta_landed(rows, m)[i].duration == rows[i].duration,
        meta_landed(rows, m)[i].broken == rows[i].broken,
        meta_landed(rows, m)[i].id == rows[i].id,
        meta_landed(rows, m)[k] == rows[k],
        duration_landed(rows, d).len() == rows.len(),
        duration_landed(rows, d)[i] == (model::TrackView { duration: Some(d.duration), ..rows[i] }),
        duration_landed(rows, d)[k] == rows[k],
{
    lemma_last_row_is(rows, rows[i].id, i);
}

/// What was read of an entry that is no longer in the list changes nothing.
pub proof fn law_a_result_without_a_row_is_dropped(
    rows: Seq<model::TrackView>,
    m: MetaView,
    d: DurationResult,
)
    requires
        d.id == m.id,
        forall|j: int| 0 <= j < rows.len() ==> (#[trigger] rows[j]).id != m.id,
    ensures
        meta_landed(rows, m) == rows,
        duration_landed(rows, d) == rows,
{
    lemma_last_row(rows, m.id);
}

/// Results land one after the other, and each that finds its row is counted once.
pub proof fn law_results_land_one_after_the_other(
    rows: Seq<model::TrackView>,
    a: Seq<MetaResult>,
    b: Seq<MetaResult>,
    m: MetaResult,
)
    ensures
        metas_landed(rows, a + b) == metas_landed(metas_landed(rows, a), b),
        metas_landed(rows, seq![m]) == meta_landed(rows, m@),
        metas_counted(rows, a + b) == metas_counted(rows, a) + metas_counted(rows, b),
        metas_counted(rows, seq![m]) == (if model::ids(rows).contains(m.id) {
            1int
        } else {
            0int
        }),
    decreases b.len(),
{
    let one = seq![m];
    assert(one.drop_last() =~= Seq::empty());
    assert(metas_landed(rows, Seq::empty()) == rows);
    assert(metas_counted(rows, Seq::empty()) == 0);
    lemma_last_row(rows, m.id);
    match last_row(rows, m.id) {
        Some(i) => {
            assert(model::ids(rows)[i] == m.id);
        },
        None => {
            assert forall|i: int| 0 <= i < model::ids(rows).len() implies model::ids(rows)[i]
                != m.id by {
                assert(model::ids(rows)[i] == rows[i].id);
            }
        },
    }
    if b.len() == 0 {
        assert(a + b =~= a);
    } else {
        law_results_land_one_after_the_other(rows, a, b.drop_last(), m);
        assert((a + b).drop_last() =~= a + b.drop_last());
    }
}

/// Lengths land one after the other, and each that finds its row is counted once.
pub proof fn law_lengths_land_one_after_the_other(
    rows: Seq<model::TrackView>,
    a: Seq<DurationResult>,
    b: Seq<DurationResult>,
    d: DurationResult,
)
    ensures
        durations_landed(rows, a + b) == durations_landed(durations_landed(rows, a), b),
        durations_landed(rows, seq![d]) == duration_landed(rows, d),
        durations_counted(rows, a + b) == durations_counted(rows, a) + durations_counted(rows, b),
        durations_counted(rows, seq![d]) == (if model::ids(rows).contains(d.id) {
            1int
        } else {
            0int
        }),
    decreases b.len(),
{
    let one = seq![d];
    assert(one.drop_last() =~= Seq::empty());
    assert(durations_landed(rows, Seq::empty()) == rows);
    assert(durations_counted(rows, Seq::empty()) == 0);
    lemma_last_row(rows, d.id);
    match last_row(rows, d.id) {
        Some(i) => {
            assert(model::ids(rows)[i] == d.id);
        },
        None => {
            assert forall|i: int| 0 <= i < model::ids(rows).len() implies model::ids(rows)[i]
                != d.id by {
                assert(model::ids(rows)[i] == rows[i].id);
            }
        },
    }
    if b.len() == 0 {
        assert(a + b =~= a);
    } else {
        law_lengths_land_one_after_the_other(rows, a, b.drop_last(), d);
        assert((a + b).drop_last() =~= a + b.drop_last());
    }
}

/// A tick takes no row away and adds none, leaves the current one where it is and the
/// settings as they are, and leaves nothing playing where it reports an event.
pub proof fn law_a_tick_keeps_the_list<B: AudioBackend>(
    after: SparkampCtx<B>,
    before: SparkampCtx<B>,
    metas: Seq<MetaResult>,
    found: Seq<DurationResult>,
    now: u64,
    r: TickReport,
)
    requires
        ticked(after, before, metas, found, now, r),
    ensures
        model::ids(after.playlist@.rows) == model::ids(before.playlist@.rows),
        after.playlist@.current == before.playlist@.current,
        after.config == before.config,
        after.queue == before.queue,
        r.events@.len() > 0 ==> after.player.settings().state == PlayerState::Stopped,
{
    let (fresh, quiet, whole) = choose|
        fresh: SparkampCtx<B>,
        quiet: SparkampCtx<B>,
        whole: SparkampCtx<B>,
    |
        {
            &&& #[trigger] begun(fresh, before, metas, found, now)
            &&& #[trigger] drained(quiet, fresh, r.events@)
            &&& mended(whole, quiet)
            &&& #[trigger] settled(after, whole, r.report)
        };
    lemma_landing_keeps_ids(before.playlist@.rows, metas, Seq::empty());
    lemma_landing_keeps_ids(metas_landed(before.playlist@.rows, metas), Seq::empty(), found);
    let (mid, first, second, at) = choose|
        mid: SparkampCtx<B>,
        first: Option<u64>,
        second: Option<u64>,
        at: Timeline,
    |
        {
            &&& whole.player.may_last(first)
            &&& #[trigger] sought_pending(mid, whole, first)
            &&& mid.player.may_last(second)
            &&& #[trigger] remembered(after, mid, second)
            &&& #[trigger] after.player.may_read(at)
            &&& r.report == report_on(at, after.last_known_duration)
        };
    assert(model::ids(fresh.playlist@.rows) == model::ids(before.playlist@.rows));
    assert(model::ids(whole.playlist@.rows) =~= model::ids(quiet.playlist@.rows));
    assert(model::ids(after.playlist@.rows) =~= model::ids(mid.playlist@.rows));
}

} // verus!
