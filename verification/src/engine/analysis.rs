//! Visualizer capture: one root, a read half and a write half.
//!
//! A backend fills an [`AnalysisTap`]; [`Analysis`] takes in what a tap
//! gathered. Samples are in parts per billion of full scale.

use crate::engine::backend::UNITY_PPB;
use vstd::prelude::*;

verus! {

/// The least entry.
pub open spec fn seq_min(s: Seq<i64>) -> int
    decreases s.len(),
{
    if s.len() <= 1 {
        s[0] as int
    } else if s.last() < seq_min(s.drop_last()) {
        s.last() as int
    } else {
        seq_min(s.drop_last())
    }
}

/// The greatest entry.
pub open spec fn seq_max(s: Seq<i64>) -> int
    decreases s.len(),
{
    if s.len() <= 1 {
        s[0] as int
    } else if s.last() > seq_max(s.drop_last()) {
        s.last() as int
    } else {
        seq_max(s.drop_last())
    }
}

/// `v` as a share of `lo..hi`, in parts per billion, rounded down.
pub open spec fn share(v: int, lo: int, hi: int) -> int {
    if hi > lo {
        ((v - lo) * UNITY_PPB) / (hi - lo)
    } else {
        0
    }
}

/// A frame of magnitudes, rescaled from its own least and greatest entry onto
/// zero to unity. A flat frame is silence.
pub open spec fn normalized(db: Seq<i64>) -> Seq<u64> {
    Seq::new(db.len(), |i: int| share(db[i] as int, seq_min(db), seq_max(db)) as u64)
}

/// The least and greatest entry bound every entry and are entries.
pub proof fn lemma_min_max_bound(s: Seq<i64>)
    requires
        s.len() > 0,
    ensures
        forall|i: int| 0 <= i < s.len() ==> seq_min(s) <= #[trigger] s[i] <= seq_max(s),
        exists|i: int| 0 <= i < s.len() && #[trigger] s[i] == seq_min(s),
        exists|i: int| 0 <= i < s.len() && #[trigger] s[i] == seq_max(s),
    decreases s.len(),
{
    if s.len() == 1 {
        assert(s[0] == seq_min(s));
    } else {
        let t = s.drop_last();
        lemma_min_max_bound(t);
        assert forall|i: int| 0 <= i < s.len() implies seq_min(s) <= #[trigger] s[i] <= seq_max(s) by {
            if i < t.len() {
                assert(s[i] == t[i]);
            }
        }
        let a = choose|i: int| 0 <= i < t.len() && #[trigger] t[i] == seq_min(t);
        let b = choose|i: int| 0 <= i < t.len() && #[trigger] t[i] == seq_max(t);
        assert(s[a] == t[a]);
        assert(s[b] == t[b]);
        assert(s[s.len() - 1] == s.last());
    }
}

/// A share lies between zero and unity, and keeps the order.
pub proof fn lemma_share(v: int, w: int, lo: int, hi: int)
    requires
        lo <= v <= w <= hi,
    ensures
        0 <= share(v, lo, hi) <= share(w, lo, hi) <= UNITY_PPB,
{
    if hi > lo {
        let d = hi - lo;
        assert(0 <= (v - lo) * UNITY_PPB <= (w - lo) * UNITY_PPB <= d * UNITY_PPB) by (nonlinear_arith)
            requires
                lo <= v <= w <= hi,
                d == hi - lo,
        ;
        vstd::arithmetic::div_mod::lemma_div_is_ordered(0, (v - lo) * UNITY_PPB, d);
        vstd::arithmetic::div_mod::lemma_div_is_ordered((v - lo) * UNITY_PPB, (w - lo) * UNITY_PPB, d);
        vstd::arithmetic::div_mod::lemma_div_is_ordered((w - lo) * UNITY_PPB, d * UNITY_PPB, d);
        vstd::arithmetic::div_mod::lemma_div_multiples_vanish(UNITY_PPB as int, d);
        assert(0int / d == 0) by (nonlinear_arith)
            requires
                d > 0,
        ;
    }
}

/// Every rescaled entry lies between zero and unity; a louder entry never
/// reads lower than a quieter one; the quietest reads zero and, where the
/// frame is not flat, the loudest reads unity.
pub proof fn law_magnitudes_keep_order_and_range(db: Seq<i64>, i: int, j: int)
    requires
        0 <= i < db.len(),
        0 <= j < db.len(),
        db[i] <= db[j],
    ensures
        normalized(db).len() == db.len(),
        0 <= normalized(db)[i] <= normalized(db)[j] <= UNITY_PPB,
        db[i] == seq_min(db) ==> normalized(db)[i] == 0,
        db[j] == seq_max(db) && seq_min(db) < seq_max(db) ==> normalized(db)[j] == UNITY_PPB,
{
    lemma_min_max_bound(db);
    let lo = seq_min(db);
    let hi = seq_max(db);
    lemma_share(db[i] as int, db[j] as int, lo, hi);
    if hi > lo {
        let d = hi - lo;
        assert(0int / d == 0) by (nonlinear_arith)
            requires
                d > 0,
        ;
        assert((hi - lo) * UNITY_PPB == d * UNITY_PPB);
        vstd::arithmetic::div_mod::lemma_div_multiples_vanish(UNITY_PPB as int, d);
    }
}

/// A flat frame reads as silence.
pub proof fn law_flat_frame_is_silence(db: Seq<i64>, i: int)
    requires
        forall|a: int, b: int| 0 <= a < db.len() && 0 <= b < db.len() ==> db[a] == db[b],
        0 <= i < db.len(),
    ensures
        normalized(db)[i] == 0,
{
    lemma_min_max_bound(db);
}

/// The last `n` entries, or all of them where there are fewer.
pub open spec fn last_n<T>(s: Seq<T>, n: int) -> Seq<T> {
    if s.len() <= n {
        s
    } else {
        s.subrange(s.len() - n, s.len() as int)
    }
}

/// The write half, held by a backend: what was captured and not yet taken in.
///
/// Both pushes accept any length; there is no size a backend must gather first.
/// No more samples are gathered than the scope keeps that the tap was made for.
pub struct AnalysisTap {
    pcm: Vec<i64>,
    frames: Vec<Vec<u64>>,
    capacity: usize,
}

impl AnalysisTap {
    /// Captured samples, oldest first.
    pub closed spec fn samples(&self) -> Seq<i64> {
        self.pcm@
    }

    /// How many samples the tap gathers at most.
    pub closed spec fn sample_capacity(&self) -> nat {
        self.capacity as nat
    }

    /// Captured magnitude frames, rescaled, oldest first.
    pub closed spec fn magnitude_frames(&self) -> Seq<Seq<u64>> {
        self.frames@.map_values(|f: Vec<u64>| f@)
    }

    /// Pushes captured mono samples. The oldest leave where there are more than
    /// the tap gathers.
    pub fn push_pcm(&mut self, mono: &[i64])
        ensures
            final(self).samples() == last_n(
                old(self).samples() + mono@,
                old(self).sample_capacity() as int,
            ),
            final(self).magnitude_frames() == old(self).magnitude_frames(),
            final(self).sample_capacity() == old(self).sample_capacity(),
    {
        let pcm = latest(&self.pcm, mono, self.capacity);
        self.pcm = pcm;
    }

    /// Pushes one magnitude frame, in millionths of a decibel. An empty frame
    /// is ignored.
    pub fn push_magnitudes_db(&mut self, db: &[i64])
        ensures
            final(self).samples() == old(self).samples(),
            final(self).sample_capacity() == old(self).sample_capacity(),
            final(self).magnitude_frames() == (if db@.len() == 0 {
                old(self).magnitude_frames()
            } else {
                old(self).magnitude_frames().push(normalized(db@))
            }),
    {
        if db.len() == 0 {
            return ;
        }
        let ghost before = self.frames@;
        let frame = rescale(db);
        self.frames.push(frame);
        assert(self.magnitude_frames() =~= old(self).magnitude_frames().push(normalized(db@)));
    }
}

/// The least and the greatest entry of a frame that is not empty.
fn min_max(db: &[i64]) -> (r: (i64, i64))
    requires
        db@.len() > 0,
    ensures
        r.0 == seq_min(db@),
        r.1 == seq_max(db@),
{
    let mut lo: i64 = db[0];
    let mut hi: i64 = db[0];
    let mut i: usize = 1;
    assert(db@.subrange(0, 1).len() == 1);
    while i < db.len()
        invariant
            1 <= i <= db@.len(),
            lo == seq_min(db@.subrange(0, i as int)),
            hi == seq_max(db@.subrange(0, i as int)),
        decreases db@.len() - i,
    {
        let v: i64 = db[i];
        assert(db@.subrange(0, i + 1).drop_last() =~= db@.subrange(0, i as int));
        assert(db@.subrange(0, i + 1).last() == v);
        if v < lo {
            lo = v;
        }
        if v > hi {
            hi = v;
        }
        i += 1;
    }
    assert(db@.subrange(0, i as int) =~= db@);
    (lo, hi)
}

/// Rescales a frame onto zero to unity by its own least and greatest entry.
fn rescale(db: &[i64]) -> (r: Vec<u64>)
    requires
        db@.len() > 0,
    ensures
        r@ == normalized(db@),
{
    let (lo, hi) = min_max(db);
    let mut out: Vec<u64> = Vec::new();
    let range: i128 = hi as i128 - lo as i128;
    proof {
        lemma_min_max_bound(db@);
    }
    let mut i: usize = 0;
    while i < db.len()
        invariant
            i <= db@.len(),
            lo == seq_min(db@),
            hi == seq_max(db@),
            range == hi - lo,
            forall|k: int| 0 <= k < db@.len() ==> lo <= #[trigger] db@[k] <= hi,
            out@.len() == i,
            forall|k: int| 0 <= k < i ==> #[trigger] out@[k] == normalized(db@)[k],
        decreases db@.len() - i,
    {
        let v: i64 = db[i];
        assert(lo <= db@[i as int] <= hi);
        if range > 0 {
            let off: i128 = v as i128 - lo as i128;
            assert(0 <= off * UNITY_PPB <= 0x1_0000_0000_0000_0000 * UNITY_PPB) by (nonlinear_arith)
                requires
                    0 <= off <= 0x1_0000_0000_0000_0000,
            ;
            let scaled: i128 = off * (UNITY_PPB as i128);
            proof {
                lemma_share(v as int, v as int, lo as int, hi as int);
            }
            out.push((scaled / range) as u64);
        } else {
            out.push(0);
        }
        i += 1;
    }
    assert(out@ =~= normalized(db@));
    out
}

/// The bars once a frame came in: each goes half the way to its magnitude. There
/// are as many as the frame has, and one that was not there starts from rest.
pub open spec fn eased(bars: Seq<u64>, frame: Seq<u64>) -> Seq<u64> {
    Seq::new(
        frame.len(),
        |i: int|
            ((frame[i] + if i < bars.len() {
                bars[i] as int
            } else {
                0
            }) / 2) as u64,
    )
}

/// The bars once frames came in, one after the other.
pub open spec fn eased_through(bars: Seq<u64>, frames: Seq<Seq<u64>>) -> Seq<u64>
    decreases frames.len(),
{
    if frames.len() == 0 {
        bars
    } else {
        eased(eased_through(bars, frames.drop_last()), frames.last())
    }
}

/// Moves the bars half the way to a frame.
fn ease(bars: &Vec<u64>, frame: &Vec<u64>) -> (r: Vec<u64>)
    ensures
        r@ == eased(bars@, frame@),
{
    let mut out: Vec<u64> = Vec::new();
    let mut i: usize = 0;
    while i < frame.len()
        invariant
            i <= frame@.len(),
            out@.len() == i,
            forall|k: int| 0 <= k < i ==> #[trigger] out@[k] == eased(bars@, frame@)[k],
        decreases frame@.len() - i,
    {
        let was: u64 = if i < bars.len() {
            bars[i]
        } else {
            0
        };
        out.push(((frame[i] as u128 + was as u128) / 2) as u64);
        i += 1;
    }
    assert(out@ =~= eased(bars@, frame@));
    out
}

/// The read half of the visualizer buffers: the smoothed magnitudes and a ring of
/// the latest samples.
pub struct Analysis {
    frame: Vec<u64>,
    received: bool,
    ring: Vec<i64>,
    capacity: usize,
}

impl Analysis {
    /// The smoothed magnitudes, zero to unity, as many as the last frame had.
    pub closed spec fn bars(&self) -> Seq<u64> {
        self.frame@
    }

    /// Whether a magnitude frame has arrived since the bars were last cleared.
    pub closed spec fn has_frame(&self) -> bool {
        self.received
    }

    /// The latest samples, oldest first.
    pub closed spec fn scope(&self) -> Seq<i64> {
        self.ring@
    }

    /// How many samples the scope keeps.
    pub closed spec fn scope_capacity(&self) -> nat {
        self.capacity as nat
    }

    /// The scope never holds more than it keeps.
    #[verifier::type_invariant]
    pub closed spec fn bounded(self) -> bool {
        self.ring@.len() <= self.capacity
    }

    pub fn new(spectrum_bands: usize, waveform_capacity: usize) -> (r: Analysis)
        ensures
            r.bars() == zeros(spectrum_bands as nat),
            !r.has_frame(),
            r.scope() == Seq::<i64>::empty(),
            r.scope_capacity() == waveform_capacity,
    {
        Analysis {
            frame: zero_vec(spectrum_bands),
            received: false,
            ring: Vec::new(),
            capacity: waveform_capacity,
        }
    }

    /// An empty write half to hand a backend, which gathers as many samples as
    /// this scope keeps.
    pub fn tap(&self) -> (r: AnalysisTap)
        ensures
            r.sample_capacity() == self.scope_capacity(),
            r.samples() == Seq::<i64>::empty(),
            r.magnitude_frames() == Seq::<Seq<u64>>::empty(),
    {
        let r = AnalysisTap { pcm: Vec::new(), frames: Vec::new(), capacity: self.capacity };
        assert(r.magnitude_frames() =~= Seq::<Seq<u64>>::empty());
        r
    }

    /// Takes in everything a tap gathered, and leaves the tap empty. The bars ease
    /// through the tap's frames; the scope keeps the latest samples.
    pub fn absorb(&mut self, tap: &mut AnalysisTap)
        ensures
            final(self).scope_capacity() == old(self).scope_capacity(),
            final(self).scope() == last_n(
                old(self).scope() + old(tap).samples(),
                old(self).scope_capacity() as int,
            ),
            final(self).bars() == eased_through(old(self).bars(), old(tap).magnitude_frames()),
            final(self).has_frame() == (old(self).has_frame()
                || old(tap).magnitude_frames().len() > 0),
            final(tap).sample_capacity() == old(tap).sample_capacity(),
            final(tap).samples() == Seq::<i64>::empty(),
            final(tap).magnitude_frames() == Seq::<Seq<u64>>::empty(),
    {
        let ghost frames = tap.magnitude_frames();
        let ring = latest(&self.ring, tap.pcm.as_slice(), self.capacity);
        self.ring = ring;
        let mut bars = zero_vec(0);
        std::mem::swap(&mut bars, &mut self.frame);
        let mut i: usize = 0;
        assert(frames.take(0) =~= Seq::empty());
        while i < tap.frames.len()
            invariant
                i <= tap.frames@.len(),
                frames == tap.magnitude_frames(),
                bars@ == eased_through(old(self).bars(), frames.take(i as int)),
            decreases tap.frames@.len() - i,
        {
            bars = ease(&bars, &tap.frames[i]);
            proof {
                assert(frames[i as int] == tap.frames@[i as int]@);
                assert(frames.take(i + 1).drop_last() =~= frames.take(i as int));
            }
            i += 1;
        }
        assert(frames.take(i as int) =~= frames);
        self.frame = bars;
        if tap.frames.len() > 0 {
            self.received = true;
        }
        tap.pcm.clear();
        tap.frames.clear();
        assert(tap.magnitude_frames() =~= Seq::<Seq<u64>>::empty());
    }

    pub fn has_magnitudes(&self) -> (r: bool)
        ensures
            r == self.has_frame(),
    {
        self.received
    }

    /// The smoothed magnitudes.
    pub fn magnitudes(&self) -> (r: &Vec<u64>)
        ensures
            r@ == self.bars(),
    {
        &self.frame
    }

    /// `count` samples for the scope, picked evenly out of those that are kept
    /// and smoothed; silence where fewer arrived.
    pub fn waveform(&self, count: usize) -> (r: Vec<i64>)
        ensures
            r@ == scope_shown(self.scope(), count as nat),
    {
        let n: usize = self.ring.len();
        if n < count {
            let out = silence(count);
            assert(out@ =~= scope_shown(self.scope(), count as nat));
            return out;
        }
        let picked = resample(&self.ring, count);
        smooth(&picked)
    }

    /// Collapses both visualizers to their resting state.
    pub fn clear(&mut self)
        ensures
            final(self).bars() == zeros(old(self).bars().len()),
            !final(self).has_frame(),
            final(self).scope() == Seq::<i64>::empty(),
            final(self).scope_capacity() == old(self).scope_capacity(),
    {
        *self = Analysis {
            frame: zero_vec(self.frame.len()),
            received: false,
            ring: Vec::new(),
            capacity: self.capacity,
        };
    }

    /// Blanks the scope without dropping the bars, which is what a track change
    /// wants.
    pub fn reset_waveform(&mut self)
        ensures
            final(self).bars() == old(self).bars(),
            final(self).has_frame() == old(self).has_frame(),
            final(self).scope() == Seq::<i64>::empty(),
            final(self).scope_capacity() == old(self).scope_capacity(),
    {
        self.ring = Vec::new();
    }
}

/// `count` samples picked evenly out of many.
pub open spec fn resampled(scope: Seq<i64>, count: nat) -> Seq<i64> {
    Seq::new(count, |k: int| scope[k * scope.len() / count as int])
}

/// The sum of the samples from one place up to another.
pub open spec fn sum_between(s: Seq<i64>, lo: int, hi: int) -> int
    decreases hi - lo,
{
    if hi <= lo {
        0
    } else {
        sum_between(s, lo, hi - 1) + s[hi - 1]
    }
}

/// The first place of the five around a sample.
pub open spec fn window_start(k: int) -> int {
    if k < 2 {
        0
    } else {
        k - 2
    }
}

/// The end of the five around a sample.
pub open spec fn window_end(k: int, n: nat) -> int {
    if k + 3 <= n {
        k + 3
    } else {
        n as int
    }
}

/// Each sample as the mean of the five around it, or of those that there are at
/// the ends.
pub open spec fn smoothed(s: Seq<i64>) -> Seq<i64> {
    Seq::new(
        s.len(),
        |k: int|
            (sum_between(s, window_start(k), window_end(k, s.len())) / (window_end(k, s.len())
                - window_start(k))) as i64,
    )
}

/// What the scope shows: `count` samples picked evenly out of those that are
/// kept and smoothed, and silence where fewer arrived.
pub open spec fn scope_shown(scope: Seq<i64>, count: nat) -> Seq<i64> {
    if scope.len() < count {
        Seq::new(count, |k: int| 0i64)
    } else {
        smoothed(resampled(scope, count))
    }
}

fn silence(count: usize) -> (r: Vec<i64>)
    ensures
        r@.len() == count,
        forall|k: int| 0 <= k < count ==> #[trigger] r@[k] == 0,
{
    let mut out: Vec<i64> = Vec::new();
    let mut i: usize = 0;
    while i < count
        invariant
            i <= count,
            out@.len() == i,
            forall|k: int| 0 <= k < i ==> #[trigger] out@[k] == 0,
        decreases count - i,
    {
        out.push(0);
        i += 1;
    }
    out
}

fn resample(ring: &Vec<i64>, count: usize) -> (r: Vec<i64>)
    requires
        count <= ring@.len(),
    ensures
        r@ == resampled(ring@, count as nat),
{
    let n: usize = ring.len();
    let mut out: Vec<i64> = Vec::new();
    let mut i: usize = 0;
    while i < count
        invariant
            i <= count,
            count <= n,
            n == ring@.len(),
            out@.len() == i,
            forall|k: int| 0 <= k < i ==> #[trigger] out@[k] == resampled(ring@, count as nat)[k],
        decreases count - i,
    {
        assert(0 <= i * n <= usize::MAX * usize::MAX) by (nonlinear_arith)
            requires
                0 <= i <= usize::MAX,
                0 <= n <= usize::MAX,
        ;
        assert(usize::MAX * usize::MAX <= u128::MAX) by (nonlinear_arith)
            requires
                usize::MAX <= 0xffff_ffff_ffff_ffff,
        ;
        assert(0 <= (i * n) / count as int <= n - 1) by (nonlinear_arith)
            requires
                0 <= i < count,
                0 < count <= n,
        ;
        let at: usize = (((i as u128) * (n as u128)) / (count as u128)) as usize;
        out.push(ring[at]);
        i += 1;
    }
    assert(out@ =~= resampled(ring@, count as nat));
    out
}

/// The sum of samples lies between as many of the least and of the greatest.
proof fn lemma_sum_bounds(s: Seq<i64>, lo: int, hi: int)
    requires
        0 <= lo <= hi <= s.len(),
    ensures
        (hi - lo) * i64::MIN <= sum_between(s, lo, hi) <= (hi - lo) * i64::MAX,
    decreases hi - lo,
{
    if lo < hi {
        lemma_sum_bounds(s, lo, hi - 1);
        assert((hi - 1 - lo) * i64::MAX + i64::MAX == (hi - lo) * i64::MAX) by (nonlinear_arith);
        assert((hi - 1 - lo) * i64::MIN + i64::MIN == (hi - lo) * i64::MIN) by (nonlinear_arith);
    }
}

fn smooth(s: &Vec<i64>) -> (r: Vec<i64>)
    ensures
        r@ == smoothed(s@),
{
    let n: usize = s.len();
    let mut out: Vec<i64> = Vec::new();
    let mut k: usize = 0;
    while k < n
        invariant
            k <= n,
            n == s@.len(),
            out@.len() == k,
            forall|i: int| 0 <= i < k ==> #[trigger] out@[i] == smoothed(s@)[i],
        decreases n - k,
    {
        let lo: usize = if k < 2 {
            0
        } else {
            k - 2
        };
        let hi: usize = if n - k >= 3 {
            k + 3
        } else {
            n
        };
        let mut sum: i128 = 0;
        let mut j: usize = lo;
        while j < hi
            invariant
                lo <= j <= hi,
                hi <= n,
                hi - lo <= 5,
                n == s@.len(),
                sum == sum_between(s@, lo as int, j as int),
            decreases hi - j,
        {
            proof {
                lemma_sum_bounds(s@, lo as int, j as int);
                lemma_sum_bounds(s@, lo as int, j + 1);
            }
            sum = sum + s[j] as i128;
            j += 1;
        }
        let width: i128 = (hi - lo) as i128;
        proof {
            lemma_sum_bounds(s@, lo as int, hi as int);
        }
        let mean: i128 = if sum >= 0 {
            sum / width
        } else {
            -((-sum + (width - 1)) / width)
        };
        proof {
            if sum < 0 {
                assert((sum as int) / (width as int) == -((-sum + (width - 1)) as int / (width as int)))
                    by (nonlinear_arith)
                    requires
                        sum < 0,
                        1 <= width <= 5,
                ;
            }
            assert(i64::MIN <= (sum as int) / (width as int) <= i64::MAX) by (nonlinear_arith)
                requires
                    1 <= width <= 5,
                    width * i64::MIN <= sum <= width * i64::MAX,
            ;
        }
        out.push(mean as i64);
        k += 1;
    }
    assert(out@ =~= smoothed(s@));
    out
}

proof fn lemma_sum_of_equals(s: Seq<i64>, v: i64, lo: int, hi: int)
    requires
        0 <= lo <= hi <= s.len(),
        forall|k: int| 0 <= k < s.len() ==> #[trigger] s[k] == v,
    ensures
        sum_between(s, lo, hi) == (hi - lo) * v,
    decreases hi - lo,
{
    if lo < hi {
        lemma_sum_of_equals(s, v, lo, hi - 1);
        assert(s[hi - 1] == v);
        assert((hi - 1 - lo) * v + v == (hi - lo) * v) by (nonlinear_arith);
    } else {
        assert((hi - lo) * v == 0) by (nonlinear_arith)
            requires
                hi == lo,
        ;
    }
}

/// A steady signal is shown as it is, however many samples are asked for, once
/// that many have arrived.
pub proof fn law_a_steady_signal_is_shown_as_it_is(scope: Seq<i64>, v: i64, count: nat, k: int)
    requires
        count <= scope.len(),
        0 <= k < count,
        forall|i: int| 0 <= i < scope.len() ==> #[trigger] scope[i] == v,
    ensures
        scope_shown(scope, count)[k] == v,
{
    let picked = resampled(scope, count);
    assert forall|i: int| 0 <= i < picked.len() implies #[trigger] picked[i] == v by {
        let n = scope.len() as int;
        assert(0 <= (i * n) / count as int <= n - 1) by (nonlinear_arith)
            requires
                0 <= i < count,
                0 < count <= n,
        ;
        assert(scope[i * n / count as int] == v);
    }
    let lo = window_start(k);
    let hi = window_end(k, picked.len());
    lemma_sum_of_equals(picked, v, lo, hi);
    assert(((hi - lo) * v) / (hi - lo) == v) by (nonlinear_arith)
        requires
            hi - lo > 0,
    ;
}

/// `n` zeros.
pub open spec fn zeros(n: nat) -> Seq<u64> {
    Seq::new(n, |i: int| 0u64)
}

fn zero_vec(n: usize) -> (r: Vec<u64>)
    ensures
        r@ == zeros(n as nat),
{
    let mut out: Vec<u64> = Vec::new();
    let mut i: usize = 0;
    while i < n
        invariant
            i <= n,
            out@ == zeros(i as nat),
        decreases n - i,
    {
        out.push(0);
        assert(out@ =~= zeros((i + 1) as nat));
        i += 1;
    }
    out
}

/// The last `capacity` samples of `a` followed by `b`.
pub fn latest(a: &Vec<i64>, b: &[i64], capacity: usize) -> (r: Vec<i64>)
    ensures
        r@ == last_n(a@ + b@, capacity as int),
        r@.len() <= capacity,
{
    let mut out: Vec<i64> = Vec::new();
    if b.len() >= capacity {
        let start: usize = b.len() - capacity;
        let mut i: usize = start;
        while i < b.len()
            invariant
                start <= i <= b@.len(),
                out@ == b@.subrange(start as int, i as int),
            decreases b@.len() - i,
        {
            out.push(b[i]);
            assert(b@.subrange(start as int, i + 1) =~= b@.subrange(start as int, i as int).push(b@[i as int]));
            i += 1;
        }
        assert(out@ =~= last_n(a@ + b@, capacity as int));
    } else {
        let room: usize = capacity - b.len();
        let start: usize = if a.len() > room {
            a.len() - room
        } else {
            0
        };
        let mut i: usize = start;
        while i < a.len()
            invariant
                start <= i <= a@.len(),
                out@ == a@.subrange(start as int, i as int),
            decreases a@.len() - i,
        {
            out.push(a[i]);
            assert(a@.subrange(start as int, i + 1) =~= a@.subrange(start as int, i as int).push(a@[i as int]));
            i += 1;
        }
        let ghost kept = out@;
        let mut j: usize = 0;
        while j < b.len()
            invariant
                j <= b@.len(),
                out@ == kept + b@.subrange(0, j as int),
            decreases b@.len() - j,
        {
            out.push(b[j]);
            assert(b@.subrange(0, j + 1) =~= b@.subrange(0, j as int).push(b@[j as int]));
            j += 1;
        }
        assert(out@ =~= last_n(a@ + b@, capacity as int));
    }
    out
}

/// What a tap of a capacity holds once captures were pushed to it in turn.
pub open spec fn gathered(pushes: Seq<Seq<i64>>, n: int) -> Seq<i64>
    decreases pushes.len(),
{
    if pushes.len() == 0 {
        Seq::empty()
    } else {
        last_n(gathered(pushes.drop_last(), n) + pushes.last(), n)
    }
}

/// What a ring that is written directly holds once captures were pushed to it in
/// turn.
pub open spec fn written(ring: Seq<i64>, pushes: Seq<Seq<i64>>, n: int) -> Seq<i64>
    decreases pushes.len(),
{
    if pushes.len() == 0 {
        ring
    } else {
        last_n(written(ring, pushes.drop_last(), n) + pushes.last(), n)
    }
}

/// Every tap writes what its analysis reads: taking in a tap of the scope's own
/// capacity, however often and however much was pushed to it, leaves the scope as
/// if each push had gone straight into it.
pub proof fn law_a_tap_writes_what_its_analysis_reads(
    ring: Seq<i64>,
    pushes: Seq<Seq<i64>>,
    n: int,
)
    requires
        n >= 0,
        ring.len() <= n,
    ensures
        last_n(ring + gathered(pushes, n), n) == written(ring, pushes, n),
    decreases pushes.len(),
{
    if pushes.len() == 0 {
        assert(ring + gathered(pushes, n) =~= ring);
    } else {
        let g = gathered(pushes.drop_last(), n);
        let p = pushes.last();
        law_a_tap_writes_what_its_analysis_reads(ring, pushes.drop_last(), n);
        law_scope_ignores_chunking(ring, g, p, n);
        assert(last_n(last_n(g, n) + p, n) == last_n(g + p, n)) by {
            assert(last_n(last_n(g, n) + p, n) =~= last_n(g + p, n));
        }
    }
}

/// What happens to the visualizer buffers.
pub enum Touch {
    /// A tap was taken in.
    Absorb(AnalysisTap),
    /// Both visualizers were put to rest.
    Clear,
    /// The scope alone was blanked.
    ResetWaveform,
}

/// Whether `after` may be what a touch leaves of `before`, as far as frames go.
pub open spec fn frame_kept(before: Analysis, touch: Touch, after: Analysis) -> bool {
    after.has_frame() == (match touch {
        Touch::Absorb(tap) => before.has_frame() || tap.magnitude_frames().len() > 0,
        Touch::Clear => false,
        Touch::ResetWaveform => before.has_frame(),
    })
}

/// Whether a touch brought a frame.
pub open spec fn brought(touch: Touch) -> bool {
    touch matches Touch::Absorb(tap) && tap.magnitude_frames().len() > 0
}

/// Over any series of touches of fresh buffers, a frame counts as received exactly
/// where one came in that no rest has followed.
pub proof fn law_a_frame_counts_until_the_next_rest(states: Seq<Analysis>, touches: Seq<Touch>)
    requires
        states.len() == touches.len() + 1,
        !states[0].has_frame(),
        forall|i: int|
            0 <= i < touches.len() ==> frame_kept(states[i], #[trigger] touches[i], states[i + 1]),
    ensures
        states.last().has_frame() <==> exists|i: int|
            0 <= i < touches.len() && brought(#[trigger] touches[i]) && forall|j: int|
                i < j < touches.len() ==> #[trigger] touches[j] != Touch::Clear,
    decreases touches.len(),
{
    if touches.len() > 0 {
        let n = touches.len() - 1;
        let fewer = touches.drop_last();
        assert(frame_kept(states[n], touches[n], states[n + 1]));
        assert forall|i: int| 0 <= i < fewer.len() implies frame_kept(
            states.drop_last()[i],
            #[trigger] fewer[i],
            states.drop_last()[i + 1],
        ) by {
            assert(fewer[i] == touches[i]);
        }
        law_a_frame_counts_until_the_next_rest(states.drop_last(), fewer);
        assert(states.drop_last().last() == states[n]);
        if states.last().has_frame() {
            if brought(touches[n]) {
                assert(brought(touches[n]));
            } else {
                let i = choose|i: int|
                    0 <= i < fewer.len() && brought(#[trigger] fewer[i]) && forall|j: int|
                        i < j < fewer.len() ==> #[trigger] fewer[j] != Touch::Clear;
                assert(touches[i] == fewer[i]);
                assert forall|j: int| i < j < touches.len() implies #[trigger] touches[j]
                    != Touch::Clear by {
                    if j < n {
                        assert(fewer[j] == touches[j]);
                    }
                }
            }
        }
        if exists|i: int|
            0 <= i < touches.len() && brought(#[trigger] touches[i]) && forall|j: int|
                i < j < touches.len() ==> #[trigger] touches[j] != Touch::Clear {
            let i = choose|i: int|
                0 <= i < touches.len() && brought(#[trigger] touches[i]) && forall|j: int|
                    i < j < touches.len() ==> #[trigger] touches[j] != Touch::Clear;
            if i < n {
                assert(fewer[i] == touches[i]);
                assert forall|j: int| i < j < fewer.len() implies #[trigger] fewer[j]
                    != Touch::Clear by {
                    assert(fewer[j] == touches[j]);
                }
                assert(touches[n] != Touch::Clear);
            }
        }
    }
}

/// A louder entry reads higher, wherever the difference is at least one part in a
/// billion of the frame's range, which is as fine as magnitudes are told apart.
pub proof fn law_a_louder_entry_reads_higher(db: Seq<i64>, i: int, j: int)
    requires
        0 <= i < db.len(),
        0 <= j < db.len(),
        db[i] < db[j],
        (db[j] - db[i]) * UNITY_PPB >= seq_max(db) - seq_min(db),
    ensures
        normalized(db)[i] < normalized(db)[j],
{
    lemma_min_max_bound(db);
    let lo = seq_min(db);
    let hi = seq_max(db);
    let d = hi - lo;
    let x = (db[i] - lo) * UNITY_PPB;
    let y = (db[j] - lo) * UNITY_PPB;
    assert(y >= x + d) by (nonlinear_arith)
        requires
            (db[j] - db[i]) * UNITY_PPB >= d,
            x == (db[i] - lo) * UNITY_PPB,
            y == (db[j] - lo) * UNITY_PPB,
    ;
    vstd::arithmetic::div_mod::lemma_div_is_ordered(x + d, y, d);
    vstd::arithmetic::div_mod::lemma_div_plus_one(x, d);
    lemma_share(db[i] as int, db[j] as int, lo, hi);
}

/// The least and the greatest entry of a frame that was made louder throughout and
/// spread by a factor.
proof fn lemma_min_max_affine(a: Seq<i64>, b: Seq<i64>, factor: int, louder: int)
    requires
        a.len() > 0,
        a.len() == b.len(),
        factor > 0,
        forall|i: int| 0 <= i < a.len() ==> #[trigger] b[i] == factor * a[i] + louder,
    ensures
        seq_min(b) == factor * seq_min(a) + louder,
        seq_max(b) == factor * seq_max(a) + louder,
    decreases a.len(),
{
    if a.len() > 1 {
        let c = a.drop_last();
        let d = b.drop_last();
        assert forall|i: int| 0 <= i < c.len() implies #[trigger] d[i] == factor * c[i] + louder by {
            assert(d[i] == b[i]);
        }
        lemma_min_max_affine(c, d, factor, louder);
        assert(b[b.len() - 1] == factor * a[a.len() - 1] + louder);
        let x = a.last() as int;
        let lo = seq_min(c);
        let hi = seq_max(c);
        assert(x < lo <==> factor * x < factor * lo) by (nonlinear_arith)
            requires
                factor > 0,
        ;
        assert(x > hi <==> factor * x > factor * hi) by (nonlinear_arith)
            requires
                factor > 0,
        ;
    } else {
        assert(b[0] == factor * a[0] + louder);
    }
}

/// How loud a frame is as a whole, and how far it is spread, does not show: a frame
/// made louder throughout, or spread by a factor, reads the same.
pub proof fn law_level_and_scale_do_not_show(a: Seq<i64>, b: Seq<i64>, factor: int, louder: int)
    requires
        a.len() == b.len(),
        factor > 0,
        forall|i: int| 0 <= i < a.len() ==> #[trigger] b[i] == factor * a[i] + louder,
    ensures
        normalized(b) == normalized(a),
{
    if a.len() > 0 {
        lemma_min_max_affine(a, b, factor, louder);
        lemma_min_max_bound(a);
        let lo = seq_min(a);
        let hi = seq_max(a);
        assert forall|i: int| 0 <= i < a.len() implies normalized(b)[i] == #[trigger] normalized(a)[i] by {
            assert(b[i] == factor * a[i] + louder);
            let v = a[i] as int;
            assert(b[i] - seq_min(b) == factor * (v - lo)) by (nonlinear_arith)
                requires
                    b[i] == factor * v + louder,
                    seq_min(b) == factor * lo + louder,
            ;
            assert(seq_max(b) - seq_min(b) == factor * (hi - lo)) by (nonlinear_arith)
                requires
                    seq_max(b) == factor * hi + louder,
                    seq_min(b) == factor * lo + louder,
            ;
            assert(lo <= a[i] <= hi);
            if hi > lo {
                let d = hi - lo;
                let x = (v - lo) * UNITY_PPB;
                assert(factor * (v - lo) * UNITY_PPB == factor * x) by (nonlinear_arith)
                    requires
                        x == (v - lo) * UNITY_PPB,
                ;
                assert(factor * d > 0) by (nonlinear_arith)
                    requires
                        factor > 0,
                        d > 0,
                ;
                lemma_cancel(x, d, factor);
            } else {
                assert(factor * (hi - lo) == 0) by (nonlinear_arith)
                    requires
                        hi == lo,
                ;
            }
        }
    }
    assert(normalized(b) =~= normalized(a));
}

/// What an analysis shows of its first frame is the shape of that frame alone: one
/// made louder throughout, or spread by a factor, shows the same. As many bars are
/// shown as the frame has entries, none above full height, and a louder entry is
/// never shown lower; it is shown higher wherever the difference is at least two
/// parts in a billion of the frame's range, which is as fine as bars are told apart.
pub proof fn law_a_first_frame_shows_its_shape(
    a: Seq<i64>,
    b: Seq<i64>,
    factor: int,
    louder: int,
    bands: nat,
    i: int,
    j: int,
)
    requires
        a.len() == b.len(),
        factor > 0,
        forall|k: int| 0 <= k < a.len() ==> #[trigger] b[k] == factor * a[k] + louder,
        0 <= i < a.len(),
        0 <= j < a.len(),
        a[i] <= a[j],
    ensures
        ({
            let shown = eased_through(zeros(bands), seq![normalized(a)]);
            &&& shown == eased_through(zeros(bands), seq![normalized(b)])
            &&& shown.len() == a.len()
            &&& 0 <= shown[i] <= shown[j] <= UNITY_PPB
            &&& a[i] < a[j] && (a[j] - a[i]) * UNITY_PPB >= 2 * (seq_max(a) - seq_min(a))
                ==> shown[i] < shown[j]
        }),
{
    law_level_and_scale_do_not_show(a, b, factor, louder);
    law_magnitudes_keep_order_and_range(a, i, j);
    let frame = normalized(a);
    let shown = eased_through(zeros(bands), seq![frame]);
    assert(seq![frame].drop_last() =~= Seq::<Seq<u64>>::empty());
    assert(eased_through(zeros(bands), Seq::<Seq<u64>>::empty()) == zeros(bands));
    assert(shown == eased(zeros(bands), frame));
    assert(shown[i] == frame[i] / 2);
    assert(shown[j] == frame[j] / 2);
    if a[i] < a[j] && (a[j] - a[i]) * UNITY_PPB >= 2 * (seq_max(a) - seq_min(a)) {
        lemma_min_max_bound(a);
        let lo = seq_min(a);
        let hi = seq_max(a);
        let d = hi - lo;
        let x = (a[i] - lo) * UNITY_PPB;
        let y = (a[j] - lo) * UNITY_PPB;
        assert(y >= x + d + d) by (nonlinear_arith)
            requires
                (a[j] - a[i]) * UNITY_PPB >= 2 * d,
                x == (a[i] - lo) * UNITY_PPB,
                y == (a[j] - lo) * UNITY_PPB,
        ;
        vstd::arithmetic::div_mod::lemma_div_is_ordered(x + d + d, y, d);
        vstd::arithmetic::div_mod::lemma_div_plus_one(x, d);
        vstd::arithmetic::div_mod::lemma_div_plus_one(x + d, d);
        lemma_share(a[i] as int, a[j] as int, lo, hi);
        assert(frame[j] >= frame[i] + 2);
    }
}

/// A common factor cancels.
proof fn lemma_cancel(x: int, d: int, f: int)
    requires
        d > 0,
        f > 0,
    ensures
        (f * x) / (f * d) == x / d,
{
    let q = x / d;
    let r = x % d;
    vstd::arithmetic::div_mod::lemma_fundamental_div_mod(x, d);
    assert(f * x == q * (f * d) + f * r && 0 <= f * r < f * d) by (nonlinear_arith)
        requires
            x == d * q + r,
            0 <= r < d,
            f > 0,
    ;
    vstd::arithmetic::div_mod::lemma_fundamental_div_mod_converse(f * x, f * d, q, f * r);
}

/// How captured samples are cut into pushes does not show: taking in `a` and
/// then `b` leaves the scope as taking in both at once, and so does taking in a
/// tap of the scope's own capacity to which `a` and then `b` were pushed.
pub proof fn law_scope_ignores_chunking(ring: Seq<i64>, a: Seq<i64>, b: Seq<i64>, n: int)
    requires
        n >= 0,
        ring.len() <= n,
    ensures
        last_n(last_n(ring + a, n) + b, n) == last_n(ring + (a + b), n),
        last_n(ring + last_n(last_n(a, n) + b, n), n) == last_n(ring + (a + b), n),
{
    assert(last_n(last_n(ring + a, n) + b, n) =~= last_n(ring + (a + b), n));
    assert(last_n(ring + last_n(last_n(a, n) + b, n), n) =~= last_n(ring + (a + b), n));
}

/// A rescaled entry stands as far between nothing and full height as the entry stands
/// between the frame's least and greatest, rounded down.
pub proof fn law_a_magnitude_is_its_share_of_the_range(db: Seq<i64>, i: int, lo: int, hi: int)
    requires
        0 <= i < db.len(),
        forall|k: int| 0 <= k < db.len() ==> lo <= #[trigger] db[k] <= hi,
        exists|k: int| 0 <= k < db.len() && #[trigger] db[k] == lo,
        exists|k: int| 0 <= k < db.len() && #[trigger] db[k] == hi,
        lo < hi,
    ensures
        normalized(db)[i] * (hi - lo) <= (db[i] - lo) * 1_000_000_000 < (normalized(db)[i] + 1) * (hi
            - lo),
{
    lemma_min_max_bound(db);
    let a = choose|k: int| 0 <= k < db.len() && #[trigger] db[k] == lo;
    let b = choose|k: int| 0 <= k < db.len() && #[trigger] db[k] == hi;
    assert(seq_min(db) == lo);
    assert(seq_max(db) == hi);
    law_magnitudes_keep_order_and_range(db, i, i);
    lemma_share(db[i] as int, db[i] as int, lo, hi);
    let d = hi - lo;
    let x = (db[i] - lo) * 1_000_000_000;
    let q = x / d;
    vstd::arithmetic::div_mod::lemma_fundamental_div_mod(x, d);
    vstd::arithmetic::div_mod::lemma_mod_bound(x, d);
    assert(normalized(db)[i] == q);
    assert(q * d <= x < (q + 1) * d) by (nonlinear_arith)
        requires
            x == d * q + x % d,
            0 <= x % d < d,
    ;
}

/// A bar goes half the way to what a frame gives it, from where it stood or, where it did
/// not stand, from rest; there is one for each entry of the frame.
pub proof fn law_a_bar_goes_half_the_way(bars: Seq<u64>, frame: Seq<u64>, i: int)
    requires
        0 <= i < frame.len(),
        frame[i] <= 1_000_000_000,
        i < bars.len() ==> bars[i] <= 1_000_000_000,
    ensures
        eased(bars, frame).len() == frame.len(),
        i < bars.len() ==> 2 * eased(bars, frame)[i] <= bars[i] + frame[i] <= 2 * eased(bars, frame)[i]
            + 1,
        i >= bars.len() ==> 2 * eased(bars, frame)[i] <= frame[i] <= 2 * eased(bars, frame)[i] + 1,
{
}

/// Frames are taken in one after the other, in the order in which they came, and without
/// any the bars stay.
pub proof fn law_frames_ease_one_after_the_other(
    bars: Seq<u64>,
    frames: Seq<Seq<u64>>,
    next: Seq<u64>,
)
    ensures
        eased_through(bars, frames.push(next)) == eased(eased_through(bars, frames), next),
        eased_through(bars, Seq::empty()) == bars,
{
    assert(frames.push(next).drop_last() =~= frames);
}

/// The scope keeps the latest samples: all of them while there is room, and from then on
/// as many as it holds, the newest last.
pub proof fn law_the_scope_keeps_the_latest<T>(older: Seq<T>, newer: Seq<T>, n: int)
    requires
        n == newer.len(),
    ensures
        last_n(older + newer, n) == newer,
        last_n(older + newer, n + older.len() as int) == older + newer,
{
    assert(last_n(older + newer, n) =~= newer);
}

/// The samples that are shown are picked in order and evenly: each stands as far into
/// what is kept as it stands into what is shown, and as many as are kept are all of them.
pub proof fn law_samples_are_picked_evenly(scope: Seq<i64>, count: nat, k: int)
    requires
        0 < count <= scope.len(),
        0 <= k < count,
    ensures
        resampled(scope, count).len() == count,
        exists|at: int|
            {
                &&& 0 <= at < scope.len()
                &&& resampled(scope, count)[k] == #[trigger] scope[at]
                &&& at * count <= k * scope.len() < (at + 1) * count
            },
        resampled(scope, scope.len()) == scope,
        resampled(scope, count)[0] == scope[0],
{
    let n = scope.len() as int;
    let c = count as int;
    let x = k * n;
    let at = x / c;
    vstd::arithmetic::div_mod::lemma_fundamental_div_mod(x, c);
    vstd::arithmetic::div_mod::lemma_mod_bound(x, c);
    assert(at * c <= x < (at + 1) * c) by (nonlinear_arith)
        requires
            x == c * at + x % c,
            0 <= x % c < c,
    ;
    assert(0 <= at <= n - 1) by (nonlinear_arith)
        requires
            at == (k * n) / c,
            0 <= k < c,
            0 < c <= n,
    ;
    assert(resampled(scope, count)[k] == scope[at]);
    assert forall|j: int| 0 <= j < n implies resampled(scope, scope.len())[j] == scope[j] by {
        assert((j * n) / n == j) by (nonlinear_arith)
            requires
                n > 0,
        ;
    }
    assert(resampled(scope, scope.len()) =~= scope);
    assert((0 * n) / c == 0) by (nonlinear_arith)
        requires
            c > 0,
    ;
}

/// Away from the ends a smoothed sample is the mean of the five around it, rounded down;
/// at either end it is the mean of the three that there are.
pub proof fn law_a_smoothed_sample_is_the_mean_around_it(s: Seq<i64>, k: int)
    requires
        s.len() >= 5,
        2 <= k < s.len() - 2,
    ensures
        smoothed(s).len() == s.len(),
        5 * smoothed(s)[k] <= s[k - 2] + s[k - 1] + s[k] + s[k + 1] + s[k + 2] < 5 * (smoothed(s)[k]
            + 1),
        3 * smoothed(s)[0] <= s[0] + s[1] + s[2] < 3 * (smoothed(s)[0] + 1),
        3 * smoothed(s)[s.len() - 1] <= s[s.len() - 3] + s[s.len() - 2] + s[s.len() - 1] < 3 * (
        smoothed(s)[s.len() - 1] + 1),
{
    let n = s.len() as int;
    reveal_with_fuel(sum_between, 6);
    lemma_sum_bounds(s, k - 2, k + 3);
    lemma_sum_bounds(s, 0, 3);
    lemma_sum_bounds(s, n - 3, n);
    assert(window_start(k) == k - 2 && window_end(k, s.len()) == k + 3);
    assert(window_start(0) == 0 && window_end(0, s.len()) == 3);
    assert(window_start(n - 1) == n - 3 && window_end(n - 1, s.len()) == n);
    let a = sum_between(s, k - 2, k + 3);
    let b = sum_between(s, 0, 3);
    let c = sum_between(s, n - 3, n);
    assert(a == s[k - 2] + s[k - 1] + s[k] + s[k + 1] + s[k + 2]);
    assert(smoothed(s)[k] == a / 5);
    assert(smoothed(s)[0] == b / 3);
    assert(smoothed(s)[n - 1] == c / 3);
}

/// Where fewer samples arrived than are asked for, the scope shows silence, and as many
/// samples as were asked for in any case.
pub proof fn law_a_scope_without_samples_is_silent(scope: Seq<i64>, count: nat, k: int)
    requires
        0 <= k < count,
    ensures
        scope_shown(scope, count).len() == count,
        scope.len() < count ==> scope_shown(scope, count)[k] == 0,
        count <= scope.len() ==> scope_shown(scope, count) == smoothed(resampled(scope, count)),
{
}

} // verus!
