//! The manual play queue: entry ids in the order they will be played.

use crate::model;
use crate::model::Playlist;
use crate::order;
use crate::order::shuffle_order;
use vstd::prelude::*;

verus! {

/// Entry ids to be played next, each at most once.
pub struct Queue {
    ids: Vec<u64>,
}

impl View for Queue {
    type V = Seq<u64>;

    closed spec fn view(&self) -> Seq<u64> {
        self.ids@
    }
}

/// Whether an entry of a playlist has the id.
pub open spec fn is_live(rows: Seq<model::TrackView>, id: u64) -> bool {
    exists|k: int| 0 <= k < rows.len() && (#[trigger] rows[k]).id == id
}

/// Every id of `q` is one that was handed out, and names an entry of the list.
pub open spec fn all_live(q: Seq<u64>, rows: Seq<model::TrackView>) -> bool {
    forall|k: int| 0 <= k < q.len() ==> is_live(rows, #[trigger] q[k]) && q[k] != 0
}

/// A queue stays all live while the entries of the list that have an id keep it,
/// however many come behind them.
pub proof fn lemma_still_live(
    q: Seq<u64>,
    before: Seq<model::TrackView>,
    after: Seq<model::TrackView>,
)
    requires
        all_live(q, before),
        before.len() <= after.len(),
        forall|i: int|
            0 <= i < before.len() && before[i].id != 0 ==> (#[trigger] after[i]).id == before[i].id,
    ensures
        all_live(q, after),
{
    assert forall|k: int| 0 <= k < q.len() implies is_live(after, #[trigger] q[k]) && q[k] != 0 by {
        assert(is_live(before, q[k]));
        let i = choose|i: int| 0 <= i < before.len() && (#[trigger] before[i]).id == q[k];
        assert(after[i].id == q[k]);
    }
}

/// A queue that names nothing new stays all live.
pub proof fn lemma_fewer_live(before: Seq<u64>, after: Seq<u64>, rows: Seq<model::TrackView>)
    requires
        all_live(before, rows),
        forall|id: u64| #[trigger] after.contains(id) ==> before.contains(id),
    ensures
        all_live(after, rows),
{
    assert forall|k: int| 0 <= k < after.len() implies is_live(rows, #[trigger] after[k]) && after[k]
        != 0 by {
        assert(after.contains(after[k]));
        let j = choose|j: int| 0 <= j < before.len() && before[j] == after[k];
        assert(is_live(rows, before[j]));
    }
}

/// A queue stays all live while the list holds the same entries, in any order.
pub proof fn lemma_live_in_any_order(
    q: Seq<u64>,
    before: Seq<model::TrackView>,
    after: Seq<model::TrackView>,
)
    requires
        all_live(q, before),
        model::same_entries(before, after),
    ensures
        all_live(q, after),
{
    assert forall|k: int| 0 <= k < q.len() implies is_live(after, #[trigger] q[k]) && q[k] != 0 by {
        assert(is_live(before, q[k]));
    }
}

/// The queued ids that still name an entry, in their order.
pub open spec fn live_ids(q: Seq<u64>, rows: Seq<model::TrackView>) -> Seq<u64>
    decreases q.len(),
{
    if q.len() == 0 {
        Seq::empty()
    } else {
        let rest = live_ids(q.drop_last(), rows);
        if is_live(rows, q.last()) {
            rest.push(q.last())
        } else {
            rest
        }
    }
}

/// The row of the entry with an id.
pub open spec fn row_of(rows: Seq<model::TrackView>, id: u64) -> Option<int>
    decreases rows.len(),
{
    if rows.len() == 0 {
        None
    } else if row_of(rows.drop_last(), id) is Some {
        row_of(rows.drop_last(), id)
    } else if rows.last().id == id {
        Some(rows.len() - 1)
    } else {
        None
    }
}

/// What the row of an id is.
pub proof fn lemma_row_of(rows: Seq<model::TrackView>, id: u64)
    ensures
        match row_of(rows, id) {
            Some(i) => {
                &&& 0 <= i < rows.len()
                &&& rows[i].id == id
                &&& forall|k: int| 0 <= k < i ==> (#[trigger] rows[k]).id != id
            },
            None => forall|k: int| 0 <= k < rows.len() ==> (#[trigger] rows[k]).id != id,
        },
    decreases rows.len(),
{
    if rows.len() > 0 {
        let fewer = rows.drop_last();
        lemma_row_of(fewer, id);
        assert forall|k: int| 0 <= k < fewer.len() implies (#[trigger] rows[k]).id == fewer[k].id by {}
        assert(rows.last() == rows[rows.len() - 1]);
    }
}

/// Whether the entry with an id is there and can be played.
pub open spec fn id_playable(rows: Seq<model::TrackView>, id: u64) -> bool {
    row_of(rows, id) matches Some(i) && !rows[i].broken
}

/// The queued ids whose entries can be played, in their order.
pub open spec fn playable_ids(rows: Seq<model::TrackView>, q: Seq<u64>) -> Seq<u64>
    decreases q.len(),
{
    if q.len() == 0 {
        Seq::empty()
    } else if id_playable(rows, q[0]) {
        seq![q[0]] + playable_ids(rows, q.drop_first())
    } else {
        playable_ids(rows, q.drop_first())
    }
}

/// The first queued id whose entry can be played.
pub open spec fn first_playable_id(rows: Seq<model::TrackView>, q: Seq<u64>) -> Option<u64> {
    let ids = playable_ids(rows, q);
    if ids.len() > 0 {
        Some(ids[0])
    } else {
        None
    }
}

/// Which ids are playable, and that none is doubled.
pub proof fn lemma_playable_ids(rows: Seq<model::TrackView>, q: Seq<u64>)
    ensures
        forall|id: u64| #[trigger] playable_ids(rows, q).contains(id) <==> q.contains(id) && id_playable(
            rows,
            id,
        ),
        q.no_duplicates() ==> playable_ids(rows, q).no_duplicates(),
    decreases q.len(),
{
    let p = playable_ids(rows, q);
    if q.len() > 0 {
        let rest = q.drop_first();
        let tail = playable_ids(rows, rest);
        lemma_playable_ids(rows, rest);
        assert forall|id: u64| #[trigger] p.contains(id) <==> q.contains(id) && id_playable(rows, id) by {
            assert(q.contains(id) <==> q[0] == id || rest.contains(id)) by {
                if q.contains(id) {
                    let k = choose|k: int| 0 <= k < q.len() && q[k] == id;
                    if k > 0 {
                        assert(rest[k - 1] == id);
                    }
                }
                if rest.contains(id) {
                    let k = choose|k: int| 0 <= k < rest.len() && rest[k] == id;
                    assert(q[k + 1] == id);
                }
            }
            if id_playable(rows, q[0]) {
                assert(p.contains(id) <==> q[0] == id || tail.contains(id)) by {
                    if p.contains(id) {
                        let k = choose|k: int| 0 <= k < p.len() && p[k] == id;
                        if k > 0 {
                            assert(tail[k - 1] == id);
                        }
                    }
                    if tail.contains(id) {
                        let k = choose|k: int| 0 <= k < tail.len() && tail[k] == id;
                        assert(p[k + 1] == id);
                    }
                    assert(p[0] == q[0]);
                }
            }
        }
        if q.no_duplicates() {
            assert(rest.no_duplicates());
            if id_playable(rows, q[0]) {
                assert(!tail.contains(q[0])) by {
                    if rest.contains(q[0]) {
                        let k = choose|k: int| 0 <= k < rest.len() && rest[k] == q[0];
                        assert(q[k + 1] == q[0]);
                    }
                }
                assert forall|i: int, j: int| 0 <= i < p.len() && 0 <= j < p.len() && i != j implies p[i]
                    != p[j] by {
                    if i == 0 {
                        assert(p[j] == tail[j - 1]);
                        assert(tail.contains(tail[j - 1]));
                    } else if j == 0 {
                        assert(p[i] == tail[i - 1]);
                        assert(tail.contains(tail[i - 1]));
                    } else {
                        assert(p[i] == tail[i - 1] && p[j] == tail[j - 1]);
                    }
                }
            }
        }
    }
}

/// The first playable id is queued, and its entry can be played.
pub proof fn lemma_first_playable_id(rows: Seq<model::TrackView>, q: Seq<u64>)
    ensures
        first_playable_id(rows, q) matches Some(id) ==> q.contains(id) && id_playable(rows, id),
{
    let ids = playable_ids(rows, q);
    lemma_playable_ids(rows, q);
    if ids.len() > 0 {
        assert(ids.contains(ids[0]));
    }
}

/// What taking an id off leaves: the others, each once.
pub proof fn lemma_toggled_off(q: Seq<u64>, id: u64)
    requires
        q.no_duplicates(),
        q.contains(id),
    ensures
        toggled(q, id).no_duplicates(),
        forall|x: u64| #[trigger] toggled(q, id).contains(x) <==> q.contains(x) && x != id,
{
    let t = toggled(q, id);
    let j = q.index_of(id);
    assert(q[j] == id);
    assert(t =~= q.remove(j));
    assert forall|x: u64| #[trigger] t.contains(x) <==> q.contains(x) && x != id by {
        if t.contains(x) {
            let k = choose|k: int| 0 <= k < t.len() && t[k] == x;
            assert(t[k] == q[if k < j { k } else { k + 1 }]);
        }
        if q.contains(x) && x != id {
            let k = choose|k: int| 0 <= k < q.len() && q[k] == x;
            assert(t[if k < j { k } else { k - 1 }] == x);
        }
    }
}

/// Taking the first playable id off the queue leaves the other playable ones, in
/// their order.
pub proof fn lemma_first_taken(rows: Seq<model::TrackView>, q: Seq<u64>, id: u64)
    requires
        q.no_duplicates(),
        first_playable_id(rows, q) == Some(id),
    ensures
        q.contains(id),
        playable_ids(rows, toggled(q, id)) == playable_ids(rows, q).drop_first(),
    decreases q.len(),
{
    let rest = q.drop_first();
    lemma_playable_ids(rows, q);
    assert(playable_ids(rows, q).contains(id)) by {
        assert(playable_ids(rows, q)[0] == id);
    }
    let j = q.index_of(id);
    if id_playable(rows, q[0]) {
        assert(q[0] == id);
        assert(q[j] == id);
        assert(j == 0);
        assert(toggled(q, id) =~= rest);
        assert(playable_ids(rows, q).drop_first() =~= playable_ids(rows, rest));
    } else {
        assert(q[0] != id);
        assert(rest.no_duplicates());
        lemma_first_taken(rows, rest, id);
        let k = rest.index_of(id);
        assert(rest[k] == id);
        assert(q[k + 1] == id);
        assert(q[j] == id);
        assert(j == k + 1);
        let t = toggled(q, id);
        assert(t =~= q.remove(j));
        assert(t[0] == q[0]);
        assert(t.drop_first() =~= toggled(rest, id));
    }
}

/// Where an id stands in the queue.
pub open spec fn place(q: Seq<u64>, id: u64) -> Option<int> {
    if q.contains(id) {
        Some(q.index_of(id))
    } else {
        None
    }
}

/// The queue once membership of an id is toggled.
pub open spec fn toggled(q: Seq<u64>, id: u64) -> Seq<u64> {
    if q.contains(id) {
        q.remove(q.index_of(id))
    } else {
        q.push(id)
    }
}

/// Pruning keeps the queue free of doubles, keeps exactly the ids that name an
/// entry, and keeps a queue that is all live as it is.
pub proof fn law_pruning_keeps_exactly_the_live(q: Seq<u64>, rows: Seq<model::TrackView>)
    requires
        q.no_duplicates(),
    ensures
        live_ids(q, rows).no_duplicates(),
        forall|id: u64| #[trigger]
            live_ids(q, rows).contains(id) <==> q.contains(id) && is_live(rows, id),
        live_ids(q, rows).len() <= q.len(),
        (forall|k: int| 0 <= k < q.len() ==> is_live(rows, #[trigger] q[k])) ==> live_ids(q, rows) == q,
    decreases q.len(),
{
    if q.len() > 0 {
        let head = q.drop_last();
        let last = q.last();
        law_pruning_keeps_exactly_the_live(head, rows);
        let out = live_ids(q, rows);
        let rest = live_ids(head, rows);
        assert(!head.contains(last)) by {
            if head.contains(last) {
                let k = choose|k: int| 0 <= k < head.len() && head[k] == last;
                assert(q[k] == q[q.len() - 1]);
            }
        }
        assert forall|id: u64| #[trigger] out.contains(id) <==> q.contains(id) && is_live(rows, id) by {
            if q.contains(id) {
                let k = choose|k: int| 0 <= k < q.len() && q[k] == id;
                if k < head.len() {
                    assert(head[k] == id);
                    assert(head.contains(id));
                }
            }
            if head.contains(id) {
                let k = choose|k: int| 0 <= k < head.len() && head[k] == id;
                assert(q[k] == id);
            }
            assert(q[q.len() - 1] == last);
            if is_live(rows, last) {
                assert(out == rest.push(last));
                if out.contains(id) {
                    let k = choose|k: int| 0 <= k < out.len() && out[k] == id;
                    if k < rest.len() {
                        assert(rest[k] == id);
                        assert(rest.contains(id));
                    }
                }
                if rest.contains(id) {
                    let k = choose|k: int| 0 <= k < rest.len() && rest[k] == id;
                    assert(out[k] == id);
                }
                assert(out[out.len() - 1] == last);
            }
        }
        assert(out.no_duplicates()) by {
            if is_live(rows, last) {
                assert(!rest.contains(last));
                assert forall|i: int, j: int| 0 <= i < out.len() && 0 <= j < out.len() && i != j implies out[i]
                    != out[j] by {
                    if i == rest.len() {
                        assert(rest.contains(rest[j]));
                    } else if j == rest.len() {
                        assert(rest.contains(rest[i]));
                    }
                }
            }
        }
        if forall|k: int| 0 <= k < q.len() ==> is_live(rows, #[trigger] q[k]) {
            assert forall|k: int| 0 <= k < head.len() implies is_live(rows, #[trigger] head[k]) by {
                assert(head[k] == q[k]);
            }
            assert(is_live(rows, q[q.len() - 1]));
            assert(out =~= q);
        }
    }
}

/// Queueing an entry and taking it off again leaves the queue as it was.
pub proof fn law_toggling_on_and_off_is_nothing(q: Seq<u64>, id: u64)
    requires
        q.no_duplicates(),
        !q.contains(id),
    ensures
        toggled(toggled(q, id), id) == q,
{
    let on = q.push(id);
    assert(on[q.len() as int] == id);
    assert(on.contains(id));
    let k = on.index_of(id);
    assert(on[k] == id);
    if k < q.len() {
        assert(q[k] == id);
    }
    assert(on.remove(k) =~= q);
}

/// Toggling an id changes whether that id is queued, and no other.
pub proof fn law_toggling_changes_one_membership(q: Seq<u64>, id: u64, other: u64)
    requires
        q.no_duplicates(),
    ensures
        toggled(q, id).no_duplicates(),
        toggled(q, id).contains(id) == !q.contains(id),
        other != id ==> toggled(q, id).contains(other) == q.contains(other),
{
    let out = toggled(q, id);
    if q.contains(id) {
        let k = q.index_of(id);
        assert(q[k] == id);
        assert forall|i: int| 0 <= i < out.len() implies #[trigger] out[i] == q[if i < k {
            i
        } else {
            i + 1
        }] by {}
        if out.contains(id) {
            let i = choose|i: int| 0 <= i < out.len() && out[i] == id;
            assert(q[if i < k {
                i
            } else {
                i + 1
            }] == id);
        }
        if other != id && q.contains(other) {
            let i = choose|i: int| 0 <= i < q.len() && q[i] == other;
            assert(out[if i < k {
                i
            } else {
                i - 1
            }] == other);
        }
    } else {
        assert(out[q.len() as int] == id);
        if q.contains(other) {
            let i = choose|i: int| 0 <= i < q.len() && q[i] == other;
            assert(out[i] == other);
        }
        if out.contains(other) && other != id {
            let i = choose|i: int| 0 <= i < out.len() && out[i] == other;
            assert(q[i] == other);
        }
    }
}

/// A sequence with the entry at one place taken out and put in at another.
pub open spec fn replaced(q: Seq<u64>, from: int, to: int) -> Seq<u64> {
    q.remove(from).insert(to, q[from])
}

/// Moving an entry keeps the entries: nothing is doubled, lost or new.
pub proof fn lemma_replaced(q: Seq<u64>, from: int, to: int)
    requires
        0 <= from < q.len(),
        0 <= to < q.len(),
    ensures
        replaced(q, from, to).len() == q.len(),
        q.no_duplicates() ==> replaced(q, from, to).no_duplicates(),
        forall|id: u64| #[trigger] replaced(q, from, to).contains(id) <==> q.contains(id),
{
    let r = replaced(q, from, to);
    let home = |i: int|
        if i == to {
            from
        } else if i < to {
            if i < from {
                i
            } else {
                i + 1
            }
        } else if i - 1 < from {
            i - 1
        } else {
            i
        };
    let away = |k: int|
        if k == from {
            to
        } else {
            let c = if k < from {
                k
            } else {
                k - 1
            };
            if c < to {
                c
            } else {
                c + 1
            }
        };
    assert forall|i: int| 0 <= i < r.len() implies #[trigger] r[i] == q[home(i)] && 0 <= home(i)
        < q.len() && away(home(i)) == i by {}
    assert forall|k: int| 0 <= k < q.len() implies #[trigger] q[k] == r[away(k)] && 0 <= away(k)
        < r.len() by {}
    assert forall|id: u64| #[trigger] r.contains(id) <==> q.contains(id) by {
        if r.contains(id) {
            let i = choose|i: int| 0 <= i < r.len() && r[i] == id;
            assert(q[home(i)] == id);
        }
        if q.contains(id) {
            let k = choose|k: int| 0 <= k < q.len() && q[k] == id;
            assert(r[away(k)] == id);
        }
    }
    if q.no_duplicates() {
        assert forall|i: int, j: int| 0 <= i < j < r.len() implies r[i] != r[j] by {
            assert(r[i] == q[home(i)] && away(home(i)) == i);
            assert(r[j] == q[home(j)] && away(home(j)) == j);
        }
    }
}

impl Queue {
    /// No id is queued twice.
    pub open spec fn wf(&self) -> bool {
        self@.no_duplicates()
    }

    pub fn new() -> (r: Queue)
        ensures
            r@ == Seq::<u64>::empty(),
            r.wf(),
    {
        Queue { ids: Vec::new() }
    }

    pub fn len(&self) -> (r: usize)
        ensures
            r == self@.len(),
    {
        self.ids.len()
    }

    /// The queued ids, next to be played first.
    pub fn ids(&self) -> (r: &Vec<u64>)
        ensures
            r@ == self@,
    {
        &self.ids
    }

    /// Where an id stands in the queue.
    pub fn position_of(&self, id: u64) -> (r: Option<usize>)
        requires
            self.wf(),
        ensures
            match r {
                Some(i) => place(self@, id) == Some(i as int) && i < self@.len() && self@[i as int] == id,
                None => place(self@, id) is None,
            },
    {
        let mut i: usize = 0;
        while i < self.ids.len()
            invariant
                i <= self.ids@.len(),
                self.ids@.no_duplicates(),
                forall|k: int| 0 <= k < i ==> #[trigger] self.ids@[k] != id,
            decreases self.ids@.len() - i,
        {
            if self.ids[i] == id {
                assert(self.ids@.contains(id));
                assert(self.ids@[self.ids@.index_of(id)] == id);
                return Some(i);
            }
            i += 1;
        }
        None
    }

    /// The first queued id whose entry can be played.
    pub fn next_playable(&self, playlist: &Playlist) -> (r: Option<u64>)
        ensures
            r == first_playable_id(playlist@.rows, self@),
    {
        let ghost rows = playlist@.rows;
        let mut i: usize = 0;
        assert(self.ids@.subrange(0, self.ids@.len() as int) =~= self.ids@);
        while i < self.ids.len()
            invariant
                i <= self.ids@.len(),
                rows == playlist@.rows,
                playable_ids(rows, self@) == playable_ids(
                    rows,
                    self.ids@.subrange(i as int, self.ids@.len() as int),
                ),
            decreases self.ids@.len() - i,
        {
            let id: u64 = self.ids[i];
            proof {
                let rest = self.ids@.subrange(i as int, self.ids@.len() as int);
                assert(rest[0] == id);
                assert(rest.drop_first() =~= self.ids@.subrange(i + 1, self.ids@.len() as int));
                lemma_row_of(rows, id);
            }
            if let Some(row) = playlist.row_of(id) {
                assert(row_of(rows, id) == Some(row as int));
                if let Some(t) = playlist.track(row) {
                    if !t.broken {
                        return Some(id);
                    }
                }
            }
            i += 1;
        }
        None
    }

    /// Queues an id that is absent, takes off one that is queued.
    pub fn toggle(&mut self, id: u64)
        requires
            old(self).wf(),
        ensures
            final(self).wf(),
            final(self)@ == toggled(old(self)@, id),
    {
        match self.position_of(id) {
            Some(i) => {
                let _gone = self.ids.remove(i);
            },
            None => self.ids.push(id),
        }
        proof {
            law_toggling_changes_one_membership(old(self)@, id, id);
        }
    }

    /// Takes an id off the queue, if it is there.
    pub fn dequeue(&mut self, id: u64)
        requires
            old(self).wf(),
        ensures
            final(self).wf(),
            final(self)@ == (if old(self)@.contains(id) {
                toggled(old(self)@, id)
            } else {
                old(self)@
            }),
            !final(self)@.contains(id),
    {
        if self.position_of(id).is_some() {
            self.toggle(id);
            proof {
                law_toggling_changes_one_membership(old(self)@, id, id);
            }
        }
    }

    pub fn clear(&mut self)
        ensures
            final(self)@ == Seq::<u64>::empty(),
            final(self).wf(),
    {
        self.ids.clear();
    }

    /// Drops every queued id that no longer names an entry.
    pub fn retain_live(&mut self, playlist: &Playlist)
        requires
            old(self).wf(),
        ensures
            final(self).wf(),
            final(self)@ == live_ids(old(self)@, playlist@.rows),
    {
        let mut out: Vec<u64> = Vec::new();
        let mut i: usize = 0;
        let ghost rows = playlist@.rows;
        assert(self.ids@.subrange(0, 0) =~= Seq::empty());
        while i < self.ids.len()
            invariant
                i <= self.ids@.len(),
                rows == playlist@.rows,
                out@ == live_ids(self.ids@.subrange(0, i as int), rows),
            decreases self.ids@.len() - i,
        {
            let id: u64 = self.ids[i];
            let ghost head = self.ids@.subrange(0, i + 1);
            assert(head.drop_last() =~= self.ids@.subrange(0, i as int));
            assert(head.last() == id);
            match playlist.row_of(id) {
                Some(k) => {
                    assert(rows[k as int].id == id);
                    out.push(id);
                },
                None => {},
            }
            i += 1;
        }
        assert(self.ids@.subrange(0, i as int) =~= self.ids@);
        proof {
            law_pruning_keeps_exactly_the_live(self.ids@, rows);
        }
        self.ids = out;
    }

    /// Takes a queued id out of its place and puts it in at another; the rest
    /// keep their order. Does nothing where either place is out of range.
    pub fn move_to(&mut self, from: usize, to: usize)
        requires
            old(self).wf(),
        ensures
            final(self).wf(),
            final(self)@ == (if from < old(self)@.len() && to < old(self)@.len() {
                replaced(old(self)@, from as int, to as int)
            } else {
                old(self)@
            }),
    {
        if from < self.ids.len() && to < self.ids.len() {
            let ghost before = self.ids@;
            let id: u64 = self.ids.remove(from);
            self.ids.insert(to, id);
            proof {
                lemma_replaced(before, from as int, to as int);
                assert(self.ids@ =~= replaced(before, from as int, to as int));
            }
        }
    }

    /// Shuffles the queue by draws; the same ids stay queued.
    pub fn shuffle(&mut self, draws: &Vec<u64>)
        requires
            old(self).wf(),
        ensures
            final(self).wf(),
            final(self)@ == order::arranged(
                old(self)@,
                order::shuffled(
                    order::identity(old(self)@.len()),
                    draws@,
                    old(self)@.len() - 1,
                ),
            ),
            forall|id: u64| #[trigger] final(self)@.contains(id) <==> old(self)@.contains(id),
    {
        let n: usize = self.ids.len();
        let o = shuffle_order(n, draws);
        let mut out: Vec<u64> = Vec::new();
        let mut k: usize = 0;
        while k < n
            invariant
                k <= n,
                n == self.ids@.len(),
                order::is_order(o@, n as int),
                out@.len() == k,
                forall|j: int| 0 <= j < k ==> #[trigger] out@[j] == self.ids@[o@[j] as int],
            decreases n - k,
        {
            assert(o@[k as int] < n);
            out.push(self.ids[o[k]]);
            k += 1;
        }
        assert(out@ =~= order::arranged(self.ids@, o@));
        proof {
            let before = self.ids@;
            assert forall|a: int, b: int| 0 <= a < n && 0 <= b < n && a != b implies out@[a] != out@[b] by {
                assert(o@[a] != o@[b]);
                assert(o@[a] < n && o@[b] < n);
                assert(out@[a] == before[o@[a] as int] && out@[b] == before[o@[b] as int]);
            }
            assert forall|id: u64| #[trigger] out@.contains(id) <==> before.contains(id) by {
                if out@.contains(id) {
                    let j = choose|j: int| 0 <= j < n && out@[j] == id;
                    assert(o@[j] < n);
                    assert(before[o@[j] as int] == id);
                }
                if before.contains(id) {
                    let i = choose|i: int| 0 <= i < n && before[i] == id;
                    order::lemma_order_is_onto(o@, n as int, i);
                    let j = choose|j: int| 0 <= j < n && #[trigger] o@[j] == i;
                    assert(out@[j] == id);
                }
            }
        }
        self.ids = out;
    }
}

/// The place of a queued id is where it stands, and one that is not queued has none.
pub proof fn law_a_place_is_where_the_id_stands(q: Seq<u64>, id: u64, i: int)
    requires
        q.no_duplicates(),
    ensures
        0 <= i < q.len() && q[i] == id ==> place(q, id) == Some(i),
        !q.contains(id) ==> place(q, id) is None,
        place(q, id) matches Some(at) ==> 0 <= at < q.len() && q[at] == id,
{
    if q.contains(id) {
        let at = q.index_of(id);
        assert(q[at] == id);
    }
    if 0 <= i < q.len() && q[i] == id {
        assert(q.contains(id));
    }
}

/// An id that is queued stands last, behind all that were; one that is taken off leaves
/// the others in their order.
pub proof fn law_a_queued_id_stands_last(q: Seq<u64>, id: u64, i: int)
    requires
        q.no_duplicates(),
    ensures
        !q.contains(id) ==> toggled(q, id).len() == q.len() + 1 && toggled(q, id).last() == id
            && toggled(q, id).subrange(0, q.len() as int) == q,
        0 <= i < q.len() && q[i] == id ==> toggled(q, id) == q.subrange(0, i) + q.subrange(
            i + 1,
            q.len() as int,
        ),
{
    if !q.contains(id) {
        assert(toggled(q, id).subrange(0, q.len() as int) =~= q);
    }
    if 0 <= i < q.len() && q[i] == id {
        assert(q.contains(id));
        let k = q.index_of(id);
        assert(q[k] == id);
        assert(k == i);
        assert(toggled(q, id) =~= q.subrange(0, i) + q.subrange(i + 1, q.len() as int));
    }
}

/// An id that is moved in the queue stands where it was sent, and the others keep their
/// order.
pub proof fn law_a_moved_id_stands_where_it_was_sent(q: Seq<u64>, from: int, to: int)
    requires
        0 <= from < q.len(),
        0 <= to < q.len(),
    ensures
        replaced(q, from, to).len() == q.len(),
        replaced(q, from, to)[to] == q[from],
        replaced(q, from, to).remove(to) == q.remove(from),
{
    assert(replaced(q, from, to).remove(to) =~= q.remove(from));
}

/// Pruning goes id by id and keeps their order.
pub proof fn law_pruning_keeps_the_order(
    a: Seq<u64>,
    b: Seq<u64>,
    one: u64,
    rows: Seq<model::TrackView>,
)
    ensures
        live_ids(a + b, rows) == live_ids(a, rows) + live_ids(b, rows),
        is_live(rows, one) ==> live_ids(seq![one], rows) == seq![one],
        !is_live(rows, one) ==> live_ids(seq![one], rows) == Seq::<u64>::empty(),
    decreases b.len(),
{
    let single = seq![one];
    assert(single.drop_last() =~= Seq::<u64>::empty());
    assert(live_ids(Seq::<u64>::empty(), rows) =~= Seq::<u64>::empty());
    assert(single.last() == one);
    if is_live(rows, one) {
        assert(live_ids(single, rows) =~= seq![one]);
    }
    if b.len() == 0 {
        assert(a + b =~= a);
        assert(live_ids(a + b, rows) =~= live_ids(a, rows) + live_ids(b, rows));
    } else {
        law_pruning_keeps_the_order(a, b.drop_last(), one, rows);
        assert((a + b).drop_last() =~= a + b.drop_last());
        assert((a + b).last() == b.last());
        assert(live_ids(a + b, rows) =~= live_ids(a, rows) + live_ids(b, rows));
    }
}

/// The queued entry that comes next is the first whose row is there and not broken: all
/// before it are gone or broken, and where none is left there is no next one.
pub proof fn law_the_next_queued_entry_is_the_first_that_plays(
    rows: Seq<model::TrackView>,
    q: Seq<u64>,
)
    requires
        forall|i: int, j: int|
            0 <= i < j < rows.len() ==> (#[trigger] rows[i]).id != (#[trigger] rows[j]).id,
    ensures
        match first_playable_id(rows, q) {
            Some(id) => exists|k: int|
                {
                    &&& 0 <= k < q.len()
                    &&& #[trigger] q[k] == id
                    &&& has_sound_row(rows, id)
                    &&& forall|j: int| 0 <= j < k ==> !has_sound_row(rows, #[trigger] q[j])
                },
            None => forall|k: int| 0 <= k < q.len() ==> !has_sound_row(rows, #[trigger] q[k]),
        },
    decreases q.len(),
{
    if q.len() > 0 {
        let rest = q.drop_first();
        lemma_sound_row(rows, q[0]);
        if id_playable(rows, q[0]) {
            assert(playable_ids(rows, q)[0] == q[0]);
            assert(q[0] == first_playable_id(rows, q).unwrap());
        } else {
            law_the_next_queued_entry_is_the_first_that_plays(rows, rest);
            match first_playable_id(rows, rest) {
                Some(id) => {
                    let k = choose|k: int|
                        {
                            &&& 0 <= k < rest.len()
                            &&& #[trigger] rest[k] == id
                            &&& has_sound_row(rows, id)
                            &&& forall|j: int| 0 <= j < k ==> !has_sound_row(rows, #[trigger] rest[j])
                        };
                    assert(q[k + 1] == id);
                    assert forall|j: int| 0 <= j < k + 1 implies !has_sound_row(
                        rows,
                        #[trigger] q[j],
                    ) by {
                        if j > 0 {
                            assert(rest[j - 1] == q[j]);
                        }
                    }
                },
                None => {
                    assert forall|k: int| 0 <= k < q.len() implies !has_sound_row(
                        rows,
                        #[trigger] q[k],
                    ) by {
                        if k > 0 {
                            assert(rest[k - 1] == q[k]);
                        }
                    }
                },
            }
        }
    }
}

/// Whether some row has an id and is not marked broken.
pub open spec fn has_sound_row(rows: Seq<model::TrackView>, id: u64) -> bool {
    exists|i: int| 0 <= i < rows.len() && (#[trigger] rows[i]).id == id && rows[i].broken == false
}

proof fn lemma_sound_row(rows: Seq<model::TrackView>, id: u64)
    requires
        forall|i: int, j: int|
            0 <= i < j < rows.len() ==> (#[trigger] rows[i]).id != (#[trigger] rows[j]).id,
    ensures
        id_playable(rows, id) == has_sound_row(rows, id),
{
    lemma_row_of(rows, id);
    match row_of(rows, id) {
        Some(i) => {
            if has_sound_row(rows, id) {
                let j = choose|j: int|
                    0 <= j < rows.len() && (#[trigger] rows[j]).id == id && rows[j].broken == false;
                assert(i == j);
            }
            if !rows[i].broken {
                assert(rows[i].id == id);
            }
        },
        None => {},
    }
}

/// An id is live exactly where a row of the list has it.
pub proof fn law_an_id_is_live_where_a_row_has_it(rows: Seq<model::TrackView>, id: u64)
    ensures
        is_live(rows, id) <==> model::ids(rows).contains(id),
{
    if is_live(rows, id) {
        let k = choose|k: int| 0 <= k < rows.len() && (#[trigger] rows[k]).id == id;
        assert(model::ids(rows)[k] == id);
    }
    if model::ids(rows).contains(id) {
        let k = choose|k: int| 0 <= k < model::ids(rows).len() && model::ids(rows)[k] == id;
        assert(rows[k].id == id);
    }
}

} // verus!
