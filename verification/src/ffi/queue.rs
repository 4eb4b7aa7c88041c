//! The manual play queue.

use crate::engine::backend;
use crate::engine::backend::AudioBackend;
use crate::engine::Player;
use crate::ffi;
use crate::ffi::playback;
use crate::ffi::playback::row_at;
use crate::ffi::playlist::crossing;
use crate::ffi::{start_current, Gains, SparkampCtx};
use crate::model;
use crate::order;
use crate::queue;
use vstd::prelude::*;

verus! {

/// The list with every entry stamped.
pub open spec fn all_stamped(p: model::PlaylistView) -> model::PlaylistView {
    model::PlaylistView {
        rows: model::stamped_rows(p.rows, p.next_id),
        next_id: p.next_id + model::unstamped(p.rows, p.rows.len() as int),
        ..p
    }
}

/// What bringing the queue in line with the list leaves: every entry stamped,
/// and no queued id that names none.
pub open spec fn in_line<B: AudioBackend>(
    after: SparkampCtx<B>,
    list: model::PlaylistView,
    queued: Seq<u64>,
) -> bool {
    &&& after.playlist@ == all_stamped(list)
    &&& after.playlist@.stamped()
    &&& after.queue@ == queue::live_ids(queued, after.playlist@.rows)
}

/// Whatever removed entries from the list, a queue brought in line names only
/// entries that are there, each once, and none that was not queued.
pub proof fn law_queue_in_line_is_all_live<B: AudioBackend>(
    after: SparkampCtx<B>,
    list: model::PlaylistView,
    queued: Seq<u64>,
)
    requires
        queued.no_duplicates(),
        in_line(after, list, queued),
    ensures
        forall|id: u64| #[trigger]
            after.queue@.contains(id) <==> queued.contains(id) && queue::is_live(
                after.playlist@.rows,
                id,
            ),
        after.queue@.no_duplicates(),
        after.queue@.len() <= queued.len(),
{
    queue::law_pruning_keeps_exactly_the_live(queued, after.playlist@.rows);
}

/// A queued entry keeps its place in the queue through any reorder of the list.
pub proof fn law_reorder_keeps_the_queue(
    p: model::PlaylistView,
    queued: Seq<u64>,
    order: Seq<usize>,
)
    requires
        p.wf(),
        queued.no_duplicates(),
        order::is_order(order, p.rows.len() as int),
    ensures
        queue::live_ids(queued, order::arranged(p.rows, order)) == queue::live_ids(queued, p.rows),
    decreases queued.len(),
{
    if queued.len() > 0 {
        let head = queued.drop_last();
        assert(head.no_duplicates());
        law_reorder_keeps_the_queue(p, head, order);
        let moved = order::arranged(p.rows, order);
        let id = queued.last();
        if queue::is_live(p.rows, id) {
            let i = choose|k: int| 0 <= k < p.rows.len() && (#[trigger] p.rows[k]).id == id;
            order::lemma_order_is_onto(order, p.rows.len() as int, i);
            let k = choose|k: int| 0 <= k < order.len() && #[trigger] order[k] == i;
            assert(moved[k].id == id);
        }
        if queue::is_live(moved, id) {
            let k = choose|k: int| 0 <= k < moved.len() && (#[trigger] moved[k]).id == id;
            assert(order[k] < p.rows.len());
            assert(p.rows[order[k] as int].id == id);
        }
    }
}

/// Brings the queue in line with the list: stamps entries that have no id yet,
/// then drops queued ids whose entries are gone.
pub fn sync_queue_to_playlist<B: AudioBackend>(ctx: &mut SparkampCtx<B>)
    requires
        old(ctx).sound(),
        old(ctx).playlist@.room(old(ctx).playlist@.rows.len() as int),
    ensures
        final(ctx).wf(),
        in_line(*final(ctx), old(ctx).playlist@, old(ctx).queue@),
        *final(ctx) == (SparkampCtx {
            playlist: final(ctx).playlist,
            queue: final(ctx).queue,
            ..*old(ctx)
        }),
{
    ctx.playlist.ensure_ids();
    let ghost queued = ctx.queue@;
    ctx.queue.retain_live(&ctx.playlist);
    proof {
        queue::law_pruning_keeps_exactly_the_live(queued, ctx.playlist@.rows);
        assert forall|k: int| 0 <= k < ctx.queue@.len() implies queue::is_live(
            ctx.playlist@.rows,
            #[trigger] ctx.queue@[k],
        ) && ctx.queue@[k] != 0 by {
            assert(ctx.queue@.contains(ctx.queue@[k]));
        }
    }
}

/// Queues the entry at a row, or takes it off the queue. Entries are stamped
/// first, so that two which have no id yet are not taken for one.
pub fn sparkamp_queue_toggle<B: AudioBackend>(ctx: Option<&mut SparkampCtx<B>>, index: i32)
    requires
        ctx matches Some(c) ==> c.wf() && c.playlist@.room(c.playlist@.rows.len() as int),
    ensures
        ctx matches Some(c) ==> {
            &&& final(c).wf()
            &&& *final(c) == (SparkampCtx {
                playlist: final(c).playlist,
                queue: final(c).queue,
                ..*c
            })
            &&& if index < 0 {
                *final(c) == *c
            } else {
                &&& final(c).playlist@ == all_stamped(c.playlist@)
                &&& final(c).queue@ == (if playback::has_row(c.playlist@, index) {
                    queue::toggled(c.queue@, final(c).playlist@.rows[index as int].id)
                } else {
                    c.queue@
                })
            }
        },
{
    if let Some(c) = ctx {
        if index < 0 {
            return ;
        }
        let ghost before = *c;
        c.playlist.ensure_ids();
        proof {
            queue::lemma_still_live(before.queue@, before.playlist@.rows, c.playlist@.rows);
        }
        if let Some(t) = c.playlist.track(index as usize) {
            let id: u64 = t.id;
            assert(c.playlist@.rows[index as int].id == id);
            c.queue.toggle(id);
        }
    }
}

/// The place in the queue of the entry at a row, counted from one; minus one
/// where it is not queued.
pub fn sparkamp_queue_position<B: AudioBackend>(ctx: Option<&SparkampCtx<B>>, index: i32) -> (r: i32)
    requires
        ctx matches Some(c) ==> c.wf(),
    ensures
        r == (match ctx {
            Some(c) if playback::has_row(c.playlist@, index) => match queue::place(
                c.queue@,
                c.playlist@.rows[index as int].id,
            ) {
                Some(at) => (at + 1) as i32,
                None => -1i32,
            },
            _ => -1i32,
        }),
{
    let c = match ctx {
        Some(c) => c,
        None => return -1,
    };
    let i: usize = match row_at(c, index) {
        Some(i) => i,
        None => return -1,
    };
    match c.playlist.track(i) {
        Some(t) => match c.queue.position_of(t.id) {
            Some(at) => {
                let n: usize = c.queue.len();
                assert(at < n);
                crossing(at + 1)
            },
            None => -1,
        },
        None => -1,
    }
}

/// How many entries are queued.
pub fn sparkamp_queue_count<B: AudioBackend>(ctx: Option<&SparkampCtx<B>>) -> (r: i32)
    ensures
        r == (match ctx {
            Some(c) => c.queue@.len() as i32,
            None => 0,
        }),
{
    match ctx {
        Some(c) => crossing(c.queue.len()),
        None => 0,
    }
}

/// The id at a place of the queue.
fn queued_at<B: AudioBackend>(ctx: &SparkampCtx<B>, queue_pos: i32) -> (r: Option<u64>)
    ensures
        r == (if 0 <= queue_pos < ctx.queue@.len() {
            Some(ctx.queue@[queue_pos as int])
        } else {
            None::<u64>
        }),
{
    if queue_pos < 0 {
        return None;
    }
    let at: usize = queue_pos as usize;
    let ids = ctx.queue.ids();
    if at < ids.len() {
        Some(ids[at])
    } else {
        None
    }
}

/// `at` is the first of these rows that has an id.
pub open spec fn first_with(rows: Seq<model::TrackView>, id: u64, at: int) -> bool {
    &&& 0 <= at < rows.len()
    &&& rows[at].id == id
    &&& forall|k: int| 0 <= k < at ==> (#[trigger] rows[k]).id != id
}

/// The first of these rows that has an id, cut to the width that crosses; minus one where none has.
pub open spec fn row_crossing(rows: Seq<model::TrackView>, id: u64, r: i32) -> bool {
    if queue::is_live(rows, id) {
        exists|at: int| #[trigger] first_with(rows, id, at) && r == at as i32
    } else {
        r == -1
    }
}

proof fn lemma_first(rows: Seq<model::TrackView>, id: u64, i: int)
    requires
        0 <= i < rows.len(),
        rows[i].id == id,
    ensures
        exists|at: int| #[trigger] first_with(rows, id, at),
    decreases i,
{
    if exists|k: int| 0 <= k < i && (#[trigger] rows[k]).id == id {
        let k = choose|k: int| 0 <= k < i && (#[trigger] rows[k]).id == id;
        lemma_first(rows, id, k);
    } else {
        assert(first_with(rows, id, i));
    }
}

/// Whatever was added, removed, sorted or replaced, the queue shows as many rows
/// as it counts: every place in it leads to a row of the list.
pub proof fn law_every_place_of_the_queue_has_a_row<B: AudioBackend>(ctx: SparkampCtx<B>, k: int)
    requires
        ctx.wf(),
        0 <= k < ctx.queue@.len(),
    ensures
        exists|at: int| #[trigger] first_with(ctx.playlist@.rows, ctx.queue@[k], at),
{
    let rows = ctx.playlist@.rows;
    assert(queue::is_live(rows, ctx.queue@[k]));
    let i = choose|i: int| 0 <= i < rows.len() && (#[trigger] rows[i]).id == ctx.queue@[k];
    lemma_first(rows, ctx.queue@[k], i);
}

/// The row of the entry at a place of the queue; minus one where there is none.
pub fn sparkamp_queue_entry_index<B: AudioBackend>(ctx: Option<&SparkampCtx<B>>, queue_pos: i32) -> (r:
    i32)
    ensures
        ctx is None ==> r == -1,
        ctx matches Some(c) ==> if 0 <= queue_pos < c.queue@.len() {
            row_crossing(c.playlist@.rows, c.queue@[queue_pos as int], r)
        } else {
            r == -1
        },
{
    let c = match ctx {
        Some(c) => c,
        None => return -1,
    };
    let id: u64 = match queued_at(c, queue_pos) {
        Some(id) => id,
        None => return -1,
    };
    match c.playlist.row_of(id) {
        Some(i) => {
            assert(first_with(c.playlist@.rows, id, i as int));
            crossing(i)
        },
        None => -1,
    }
}

/// Empties the queue.
pub fn sparkamp_queue_clear<B: AudioBackend>(ctx: Option<&mut SparkampCtx<B>>)
    requires
        ctx matches Some(c) ==> c.wf(),
    ensures
        ctx matches Some(c) ==> {
            &&& final(c).wf()
            &&& final(c).queue@ == Seq::<u64>::empty()
            &&& *final(c) == (SparkampCtx { queue: final(c).queue, ..*c })
        },
{
    if let Some(c) = ctx {
        c.queue.clear();
    }
}

/// Shuffles the queue by draws; the same entries stay queued.
pub fn sparkamp_queue_shuffle<B: AudioBackend>(ctx: Option<&mut SparkampCtx<B>>, draws: &Vec<u64>)
    requires
        ctx matches Some(c) ==> c.wf(),
    ensures
        ctx matches Some(c) ==> {
            &&& final(c).wf()
            &&& final(c).queue@ == order::arranged(
                c.queue@,
                order::shuffled(
                    order::identity(c.queue@.len()),
                    draws@,
                    c.queue@.len() - 1,
                ),
            )
            &&& forall|id: u64| #[trigger] final(c).queue@.contains(id) <==> c.queue@.contains(id)
            &&& *final(c) == (SparkampCtx { queue: final(c).queue, ..*c })
        },
{
    if let Some(c) = ctx {
        let ghost before = c.queue@;
        c.queue.shuffle(draws);
        proof {
            queue::lemma_fewer_live(before, c.queue@, c.playlist@.rows);
        }
    }
}

/// The queue once the entry at a place was moved by `delta`, up where that is
/// below zero, and no further than the ends.
pub open spec fn moved_by(q: Seq<u64>, at: i32, delta: i32) -> Seq<u64> {
    if 0 <= at < q.len() {
        queue::replaced(q, at as int, backend::clamped(at + delta, 0, q.len() - 1))
    } else {
        q
    }
}

/// Moves the entry at a place of the queue up or down by `delta` and stops at the
/// ends; the rest keep their order. A place that is not there changes nothing.
pub fn sparkamp_queue_move<B: AudioBackend>(
    ctx: Option<&mut SparkampCtx<B>>,
    queue_pos: i32,
    delta: i32,
)
    requires
        ctx matches Some(c) ==> c.wf(),
    ensures
        ctx matches Some(c) ==> {
            &&& final(c).wf()
            &&& final(c).queue@ == moved_by(c.queue@, queue_pos, delta)
            &&& *final(c) == (SparkampCtx { queue: final(c).queue, ..*c })
        },
{
    if let Some(c) = ctx {
        if queue_pos < 0 || queue_pos as usize >= c.queue.len() {
            return ;
        }
        let ghost before = c.queue@;
        let last: usize = c.queue.len() - 1;
        let goal: i64 = queue_pos as i64 + delta as i64;
        let to: usize = if goal <= 0 {
            0
        } else if goal as u64 > last as u64 {
            last
        } else {
            goal as usize
        };
        c.queue.move_to(queue_pos as usize, to);
        proof {
            queue::lemma_replaced(before, queue_pos as int, to as int);
            queue::lemma_fewer_live(before, c.queue@, c.playlist@.rows);
        }
    }
}

/// What playing a queued entry now leaves of the session it found: it is off the
/// queue and plays, and a stop armed for the end of the track before is given up.
pub open spec fn queued_played<B: AudioBackend>(
    after: SparkampCtx<B>,
    before: SparkampCtx<B>,
    id: u64,
    gains: Gains,
    said: Option<String>,
) -> bool {
    &&& after.queue@ == queue::toggled(before.queue@, id)
    &&& !after.queue@.contains(id)
    &&& if queue::is_live(before.playlist@.rows, id) {
        exists|row: int, mid: Player<B>|
            {
                &&& #[trigger] playback::disarmed(mid, before.player)
                &&& 0 <= row < before.playlist@.rows.len()
                &&& (#[trigger] before.playlist@.rows[row]).id == id
                &&& after.playlist@ == (model::PlaylistView { current: row, ..before.playlist@ })
                &&& ffi::primed_saying(
                    after.player,
                    mid,
                    model::uri_of(before.playlist@.rows[row].path),
                    ffi::gain_in(before.config.playback, gains),
                    said,
                )
                &&& after == (SparkampCtx {
                    player: after.player,
                    playlist: after.playlist,
                    queue: after.queue,
                    last_known_duration: None,
                    ..before
                })
                &&& !after.player.settings().stop_after_current
            }
    } else {
        after == (SparkampCtx { queue: after.queue, ..before }) && said is None
    }
}

/// Plays the entry at a place of the queue now and takes it off the queue.
pub fn sparkamp_queue_play_now<B: AudioBackend>(
    ctx: Option<&mut SparkampCtx<B>>,
    queue_pos: i32,
    gains: Gains,
) -> (r: Option<String>)
    requires
        ctx matches Some(c) ==> c.wf(),
    ensures
        ctx is None ==> r is None,
        ctx matches Some(c) ==> {
            &&& final(c).wf()
            &&& if 0 <= queue_pos < c.queue@.len() {
                queued_played(*final(c), *c, c.queue@[queue_pos as int], gains, r)
            } else {
                *final(c) == *c && r is None
            }
        },
{
    let c = match ctx {
        Some(c) => c,
        None => return None,
    };
    let ghost before = *c;
    let id: u64 = match queued_at(c, queue_pos) {
        Some(id) => id,
        None => return None,
    };
    assert(before.queue@.contains(id)) by {
        assert(before.queue@[queue_pos as int] == id);
    }
    c.queue.dequeue(id);
    match c.playlist.row_of(id) {
        Some(row) => {
            c.last_known_duration = None;
            c.player.set_stop_after_current(false);
            assert(playback::disarmed(c.player, before.player));
            let _ = c.playlist.jump_to(row);
            assert(before.playlist@.rows[row as int].id == id);
            start_current(c, gains)
        },
        None => None,
    }
}

/// A queued entry is moved by as many places as are asked for, as far as the queue goes;
/// it stands there then, the others keep their order, and a place that is not there moves
/// nothing.
pub proof fn law_a_queued_entry_moves_by_places(q: Seq<u64>, at: i32, delta: i32)
    ensures
        0 <= at < q.len() ==> {
            let to = if at + delta < 0 {
                0
            } else if at + delta >= q.len() {
                q.len() - 1
            } else {
                at + delta
            };
            &&& moved_by(q, at, delta).len() == q.len()
            &&& moved_by(q, at, delta)[to] == q[at as int]
            &&& moved_by(q, at, delta).remove(to) == q.remove(at as int)
        },
        at < 0 || at >= q.len() ==> moved_by(q, at, delta) == q,
        delta == 0 ==> moved_by(q, at, delta) == q,
{
    if 0 <= at < q.len() {
        let to = backend::clamped(at + delta, 0, q.len() - 1);
        queue::law_a_moved_id_stands_where_it_was_sent(q, at as int, to);
        if delta == 0 {
            assert(moved_by(q, at, delta) =~= q);
        }
    }
}

/// What crosses as the row of a queued entry is a row that has its id.
pub proof fn law_a_queued_entry_crosses_as_its_row(rows: Seq<model::TrackView>, id: u64, r: i32)
    requires
        row_crossing(rows, id, r),
        rows.len() <= i32::MAX,
    ensures
        r == -1 ==> !queue::is_live(rows, id),
        r != -1 ==> 0 <= r < rows.len() && rows[r as int].id == id,
{
}

/// Playing a queued entry makes its row current, plays that row, and takes that entry and
/// no other off the queue.
pub proof fn law_a_queued_entry_that_is_played_leaves_the_queue<B: AudioBackend>(
    after: SparkampCtx<B>,
    before: SparkampCtx<B>,
    id: u64,
    gains: Gains,
    said: Option<String>,
)
    requires
        queued_played(after, before, id, gains, said),
        before.queue@.no_duplicates(),
        before.queue@.contains(id),
        queue::is_live(before.playlist@.rows, id),
    ensures
        after.playlist@.rows == before.playlist@.rows,
        0 <= after.playlist@.current < after.playlist@.rows.len(),
        after.playlist@.rows[after.playlist@.current].id == id,
        after.playlist@.current_row() matches Some(t) && {
            let set = before.config.playback;
            let plays_with = |gain: Option<i64>|
                exists|mid: Player<B>| #[trigger]
                    ffi::primed_saying(after.player, mid, model::uri_of(t.path), gain, said);
            &&& set.replaygain.source == crate::config::RgSource::Album ==> plays_with(gains.album)
            &&& set.replaygain.source == crate::config::RgSource::Track ==> plays_with(gains.track)
            &&& set.replaygain.source == crate::config::RgSource::Automatic && set.shuffle_enabled
                ==> plays_with(gains.track)
            &&& set.replaygain.source == crate::config::RgSource::Automatic && !set.shuffle_enabled
                ==> plays_with(gains.album)
        },
        after.last_known_duration is None,
        after.config == before.config,
        !after.player.settings().stop_after_current,
        forall|x: u64| #[trigger] after.queue@.contains(x) <==> before.queue@.contains(x) && x != id,
{
    queue::lemma_toggled_off(before.queue@, id);
}

} // verus!
