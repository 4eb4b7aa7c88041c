//! Shuffle: whether it is on, which rows were played, and how far back in them a
//! listener has stepped.

use vstd::prelude::*;

verus! {

/// Whether shuffle is on, and the rows played, oldest first.
pub struct ShuffleState {
    pub enabled: bool,
    pub history: Vec<usize>,
    /// How many rows the cursor stands before the last one played.
    pub back: usize,
}

impl ShuffleState {
    /// The rows played, oldest first.
    pub open spec fn played(&self) -> Seq<usize> {
        self.history@
    }

    /// The row that the cursor would step back to.
    pub open spec fn earlier(&self) -> Option<usize> {
        if self.back + 1 < self.played().len() {
            Some(self.played()[self.played().len() - 2 - self.back])
        } else {
            None
        }
    }

    /// This state is `before` once a row was played: it is the last one, and the
    /// cursor stands on it.
    pub open spec fn recorded(&self, before: &Self, row: usize) -> bool {
        &&& self.enabled == before.enabled
        &&& self.played() == before.played().push(row)
        &&& self.back == 0
    }

    /// This state is `before` once the cursor was asked to step back: it goes one
    /// row back where there is one, and nothing is recorded.
    pub open spec fn walked(&self, before: &Self) -> bool {
        &&& self.enabled == before.enabled
        &&& self.played() == before.played()
        &&& self.back == before.back + if before.earlier() is Some {
            1int
        } else {
            0int
        }
    }

    pub fn new() -> (r: ShuffleState)
        ensures
            !r.enabled,
            r.played() == Seq::<usize>::empty(),
            r.back == 0,
    {
        ShuffleState { enabled: false, history: Vec::new(), back: 0 }
    }

    /// Notes that a row is played.
    pub fn record_played(&mut self, row: usize)
        ensures
            final(self).recorded(old(self), row),
    {
        self.history.push(row);
        self.back = 0;
    }

    /// The row that the cursor would step back to.
    pub fn earlier_row(&self) -> (r: Option<usize>)
        ensures
            r == self.earlier(),
    {
        let n: usize = self.history.len();
        if n >= 2 && self.back <= n - 2 {
            Some(self.history[n - 2 - self.back])
        } else {
            None
        }
    }

    /// Steps the cursor back, where there is a row to step to.
    pub fn walk_back(&mut self)
        ensures
            final(self).walked(old(self)),
    {
        let n: usize = self.history.len();
        if n >= 2 && self.back <= n - 2 {
            self.back = self.back + 1;
        }
    }

    pub fn has_history(&self) -> (r: bool)
        ensures
            r == (self.played().len() > 0),
    {
        self.history.len() > 0
    }

    /// Forgets what was played.
    pub fn reset(&mut self)
        ensures
            final(self).enabled == old(self).enabled,
            final(self).played() == Seq::<usize>::empty(),
            final(self).back == 0,
    {
        self.history.clear();
        self.back = 0;
    }

    /// Switches shuffle over.
    pub fn toggle(&mut self)
        ensures
            final(self).enabled == !old(self).enabled,
            final(self).played() == old(self).played(),
            final(self).back == old(self).back,
    {
        self.enabled = !self.enabled;
    }
}

/// Walking back goes through what was played, latest first: a row that was played
/// after another is left for that other one, and once more for the one before it.
pub proof fn law_back_retraces_what_was_played(
    before: ShuffleState,
    one: ShuffleState,
    two: ShuffleState,
    back: ShuffleState,
    a: usize,
    b: usize,
)
    requires
        one.recorded(&before, a),
        two.recorded(&one, b),
        back.walked(&two),
    ensures
        two.earlier() == Some(a),
        back.played() == before.played().push(a).push(b),
        back.earlier() == (if before.played().len() > 0 {
            Some(before.played().last())
        } else {
            None
        }),
{
}

/// The row to step back to is the one played before the one that the cursor stands on,
/// and before the first there is none; each step back moves the cursor by one.
pub proof fn law_the_cursor_goes_back_one_by_one(state: ShuffleState, next: ShuffleState)
    requires
        next.walked(&state),
    ensures
        state.back + 2 <= state.played().len() ==> {
            &&& state.earlier() == Some(state.played()[state.played().len() - 2 - state.back])
            &&& next.back == state.back + 1
        },
        state.back + 2 > state.played().len() ==> state.earlier() is None && next.back == state.back,
        next.played() == state.played(),
        next.enabled == state.enabled,
{
}

} // verus!
