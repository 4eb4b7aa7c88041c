//! The seam between the player and an audio stack, and the vocabulary that
//! crosses it.
//!
//! Levels are held as integers: a linear multiplier in parts per billion of
//! unity, a gain in millionths of a decibel, a time in nanoseconds.

use crate::disc;
use crate::disc::parse_cdda_uri;
use crate::engine::analysis::AnalysisTap;
use crate::engine::{BusEvent, PlayerState};
use vstd::prelude::*;

verus! {

/// Full scale, in parts per billion.
pub const UNITY_PPB: u64 = 1_000_000_000;

/// How far an equalizer band may move either way, in millionths of a decibel.
pub const EQ_BAND_DB_LIMIT: i64 = 12_000_000;

/// Equalizer bands, low frequency first.
pub const EQ_BANDS: usize = 10;

/// A linear output multiplier in parts per billion of unity, never decibels.
///
/// Non-negative by construction. Unity is no ceiling: a pre-amp goes past it.
#[derive(Debug, Clone, Copy, PartialEq, Eq, PartialOrd, Structural)]
pub struct Amplitude {
    pub ppb: u64,
}

impl Amplitude {
    /// The decoded stream's own level.
    pub fn unity() -> (r: Amplitude)
        ensures
            r.ppb == UNITY_PPB,
    {
        Amplitude { ppb: UNITY_PPB }
    }

    /// No output.
    pub fn silent() -> (r: Amplitude)
        ensures
            r.ppb == 0,
    {
        Amplitude { ppb: 0 }
    }

    /// Clamps negatives to zero.
    pub fn linear(ppb: i64) -> (r: Amplitude)
        ensures
            r.ppb == (if ppb < 0 {
                0
            } else {
                ppb as int
            }),
    {
        if ppb < 0 {
            Amplitude { ppb: 0 }
        } else {
            Amplitude { ppb: ppb as u64 }
        }
    }

    pub fn get(self) -> (r: u64)
        ensures
            r == self.ppb,
    {
        self.ppb
    }
}

/// `v` moved into `lo..=hi`.
pub open spec fn clamped(v: int, lo: int, hi: int) -> int {
    if v < lo {
        lo
    } else if v > hi {
        hi
    } else {
        v
    }
}

/// A band gain moved into the equalizer's range.
pub open spec fn band_clamped(db: i64) -> i64 {
    clamped(db as int, -EQ_BAND_DB_LIMIT as int, EQ_BAND_DB_LIMIT as int) as i64
}

/// A gain that was clamped stays.
pub proof fn lemma_band_clamped_twice(db: i64)
    ensures
        band_clamped(band_clamped(db)) == band_clamped(db),
{
}

/// Moves a band gain into the equalizer's range.
pub fn clamp_band(db: i64) -> (r: i64)
    ensures
        r == band_clamped(db),
        -EQ_BAND_DB_LIMIT <= r <= EQ_BAND_DB_LIMIT,
{
    if db < -EQ_BAND_DB_LIMIT {
        -EQ_BAND_DB_LIMIT
    } else if db > EQ_BAND_DB_LIMIT {
        EQ_BAND_DB_LIMIT
    } else {
        db
    }
}

/// Ten equalizer band gains in millionths of a decibel, low frequency first,
/// each within [`EQ_BAND_DB_LIMIT`] of zero.
///
/// The clamp lives in the constructors, so no caller can skip it.
#[derive(Debug, Clone, Copy, PartialEq)]
pub struct EqCurve {
    db: [i64; 10],
}

impl EqCurve {
    #[verifier::type_invariant]
    pub closed spec fn in_range(self) -> bool {
        forall|i: int| 0 <= i < 10 ==> -EQ_BAND_DB_LIMIT <= #[trigger] self.db@[i] <= EQ_BAND_DB_LIMIT
    }

    /// The ten gains.
    pub closed spec fn bands(self) -> Seq<i64> {
        self.db@
    }

    /// Whatever the curve, there are ten gains.
    pub proof fn law_there_are_ten_bands(self)
        ensures
            self.bands().len() == EQ_BANDS,
    {
    }

    /// No band moved.
    pub fn flat() -> (r: EqCurve)
        ensures
            r.bands() == flat_bands(),
    {
        let r = EqCurve { db: [0i64;10] };
        assert(r.db@ =~= flat_bands());
        r
    }

    /// Clamps each entry into range. Entries past the tenth are ignored; bands
    /// a short list does not cover keep their value.
    pub fn with_bands(self, bands: &[i64]) -> (r: EqCurve)
        ensures
            r.bands() == merged_bands(self.bands(), bands@),
            r.bands().len() == EQ_BANDS,
    {
        proof {
            use_type_invariant(&self);
        }
        let mut out: [i64; 10] = self.db;
        let mut i: usize = 0;
        while i < EQ_BANDS && i < bands.len()
            invariant
                i <= EQ_BANDS,
                i <= bands@.len(),
                self.in_range(),
                out@.len() == 10,
                forall|k: int|
                    0 <= k < 10 ==> #[trigger] out@[k] == (if k < i {
                        band_clamped(bands@[k])
                    } else {
                        self.db@[k]
                    }),
            decreases EQ_BANDS - i,
        {
            out[i] = clamp_band(bands[i]);
            i += 1;
        }
        assert(out@ =~= merged_bands(self.db@, bands@));
        assert forall|k: int| 0 <= k < 10 implies -EQ_BAND_DB_LIMIT <= #[trigger] out@[k]
            <= EQ_BAND_DB_LIMIT by {
            assert(-EQ_BAND_DB_LIMIT <= self.db@[k] <= EQ_BAND_DB_LIMIT);
        }
        EqCurve { db: out }
    }

    /// Sets one band. A `band` past the tenth changes nothing.
    pub fn with_band(self, band: usize, gain_db: i64) -> (r: EqCurve)
        ensures
            r.bands() == (if band < EQ_BANDS {
                self.bands().update(band as int, band_clamped(gain_db))
            } else {
                self.bands()
            }),
            r.bands().len() == EQ_BANDS,
    {
        proof {
            use_type_invariant(&self);
        }
        let mut out: [i64; 10] = self.db;
        if band < EQ_BANDS {
            out[band] = clamp_band(gain_db);
        }
        assert forall|k: int| 0 <= k < 10 implies -EQ_BAND_DB_LIMIT <= #[trigger] out@[k]
            <= EQ_BAND_DB_LIMIT by {
            assert(-EQ_BAND_DB_LIMIT <= self.db@[k] <= EQ_BAND_DB_LIMIT);
        }
        EqCurve { db: out }
    }

    /// One band's gain; zero past the tenth.
    pub fn band(&self, band: usize) -> (r: i64)
        ensures
            r == (if band < EQ_BANDS {
                self.bands()[band as int]
            } else {
                0
            }),
            -EQ_BAND_DB_LIMIT <= r <= EQ_BAND_DB_LIMIT,
    {
        proof {
            use_type_invariant(self);
        }
        if band < EQ_BANDS {
            assert(-EQ_BAND_DB_LIMIT <= self.db@[band as int] <= EQ_BAND_DB_LIMIT);
            self.db[band]
        } else {
            0
        }
    }

    pub fn as_db(&self) -> (r: &[i64; 10])
        ensures
            r@ == self.bands(),
    {
        &self.db
    }
}

impl Default for EqCurve {
    fn default() -> (r: EqCurve)
        ensures
            r.bands() == flat_bands(),
    {
        EqCurve::flat()
    }
}

/// Ten bands at zero.
pub open spec fn flat_bands() -> Seq<i64> {
    Seq::new(10, |i: int| 0i64)
}

/// `old` with the gains of `given`, clamped, over the bands that `given` has.
pub open spec fn merged_bands(old: Seq<i64>, given: Seq<i64>) -> Seq<i64> {
    Seq::new(
        10,
        |i: int|
            if i < given.len() {
                band_clamped(given[i])
            } else {
                old[i]
            },
    )
}

/// What the backend should be doing to the signal level, as a complete picture
/// rather than a change to one.
#[derive(Debug, Clone, Copy, PartialEq, Eq, Structural)]
pub struct Normalization {
    /// `false` means no normalization stage in the audio path at all.
    pub enabled: bool,
    /// Attenuate rather than clip when a loud track is pushed past full scale.
    pub clip_protection: bool,
    /// Gain, in millionths of a decibel, for a stream with no tags of its own.
    pub fallback_db: i64,
    /// Prefer album gain over track gain when the stream carries both.
    pub album_mode: bool,
}

/// Whether a normalization change is heard now or from the next load.
#[derive(Debug, Clone, Copy, PartialEq, Eq, Structural)]
#[must_use]
pub enum Applied {
    Now,
    AtNextLoad,
}

/// What to play, parsed.
#[derive(Debug, Clone, PartialEq, Eq)]
pub enum MediaSource {
    /// A URI the backend can open directly.
    Uri(String),
    /// One track of a CD in a named drive.
    CdTrack { track: String, device: Option<String> },
}

impl MediaSource {
    /// The source that a playback URI stands for: anything that is not a
    /// `cdda://` pseudo-URI is itself, verbatim.
    pub open spec fn stands_for(self, uri: Seq<char>) -> bool {
        match self {
            MediaSource::Uri(u) => !disc::is_cdda(uri) && u@ == uri,
            MediaSource::CdTrack { track, device } => {
                &&& disc::is_cdda(uri)
                &&& track@ == disc::cdda_track(uri)
                &&& match device {
                    Some(d) => disc::cdda_device(uri) == Some(d@),
                    None => disc::cdda_device(uri) is None,
                }
            },
        }
    }

    /// The one place a playback URI is parsed.
    pub fn parse(uri: &str) -> (r: MediaSource)
        ensures
            r.stands_for(uri@),
    {
        match parse_cdda_uri(uri) {
            Some((track, device)) => MediaSource::CdTrack { track, device },
            None => MediaSource::Uri(uri.to_owned()),
        }
    }
}

/// Position and duration, in nanoseconds, read from one instant.
#[derive(Debug, Clone, Copy, PartialEq, Eq, Structural)]
pub struct Timeline {
    /// `None` when nothing is loaded or the clock has not started.
    pub position: Option<u64>,
    /// `None` until the format reports one. Never invented.
    pub duration: Option<u64>,
}

impl Default for Timeline {
    fn default() -> (r: Timeline)
        ensures
            r.position is None,
            r.duration is None,
    {
        Timeline { position: None, duration: None }
    }
}

/// What a backend can actually do. Fixed for the life of the backend.
#[derive(Debug, Clone, Copy, PartialEq, Eq, Structural)]
pub struct Capabilities {
    /// `false` means that setting the equalizer is a silent no-op.
    pub eq: bool,
    /// `false` means that no magnitudes will ever be captured.
    pub spectrum: bool,
    /// `false` means that setting the normalization is a silent no-op.
    pub normalization: bool,
}

/// Why an audio path could not do what it was asked.
#[derive(Debug, Clone, PartialEq, Eq)]
pub struct BackendError {
    pub message: String,
}

/// One call across the seam: what was handed over and what came back.
pub enum Call {
    Load(MediaSource, Result<(), BackendError>),
    SetState(PlayerState, Result<(), BackendError>),
    Seek(u64, Result<(), BackendError>),
    PollEvent(Option<BusEvent>),
    SetOutputGain(Amplitude),
    SetEq(EqCurve),
    SetNormalization(Normalization, Applied),
}

/// Whether `got` is what an installation may make of a normalization that was
/// asked for: the same gains, and no stage that was not asked for. A plugin that
/// is missing costs its stage.
pub open spec fn serves(got: Normalization, want: Normalization) -> bool {
    &&& got.fallback_db == want.fallback_db
    &&& got.album_mode == want.album_mode
    &&& got.enabled ==> want.enabled
    &&& got.clip_protection ==> want.clip_protection
}

/// Everything a player cannot do without knowing which audio stack it is
/// talking to.
///
/// Every write is full-state, so repeating one is free and interleaving two
/// cannot lose half of either. Each setting changes only through its own
/// setter; the one exception is a deferred normalization, which a load installs.
pub trait AudioBackend: Sized {
    /// What this backend can do.
    spec fn caps(&self) -> Capabilities;

    /// The output level in force.
    spec fn level(&self) -> Amplitude;

    /// The equalizer curve in force.
    spec fn curve(&self) -> EqCurve;

    /// The normalization in force.
    spec fn installed(&self) -> Normalization;

    /// A normalization that waits for the next load.
    spec fn deferred(&self) -> Option<Normalization>;

    /// The transport state last reached.
    spec fn transport(&self) -> PlayerState;

    /// Whether `call` may turn `before` into `after`. A backend says here what
    /// each of its answers means; the player is described by the calls it makes,
    /// one after the other.
    spec fn step(before: Self, call: Call, after: Self) -> bool;

    /// A bound on the events that are still to come before the backend has
    /// caught up.
    spec fn backlog(&self) -> nat;

    /// Builds the audio path and takes the write half of the visualizer
    /// buffers. Errors only when no audio is possible at all; a diminished
    /// backend opens and says so in its capabilities. A fresh path plays at unity.
    fn open(tap: AnalysisTap) -> (r: Result<Self, BackendError>)
        ensures
            r matches Ok(b) ==> b.deferred() is None && b.level().ppb == UNITY_PPB,
    ;

    /// Constant for the lifetime of the backend.
    fn capabilities(&self) -> (r: Capabilities)
        ensures
            r == self.caps(),
    ;

    /// Points the audio path at `source`, stopped and unstarted. A deferred
    /// normalization is installed here, before the source is opened.
    fn load(&mut self, source: &MediaSource) -> (r: Result<(), BackendError>)
        ensures
            Self::step(*old(self), Call::Load(*source, r), *final(self)),
            final(self).caps() == old(self).caps(),
            final(self).level() == old(self).level(),
            final(self).curve() == old(self).curve(),
            r is Ok ==> {
                &&& final(self).transport() == PlayerState::Stopped
                &&& final(self).deferred() is None
                &&& match old(self).deferred() {
                    Some(want) => serves(final(self).installed(), want),
                    None => final(self).installed() == old(self).installed(),
                }
            },
    ;

    /// Drives the audio path to `state`.
    fn set_state(&mut self, state: PlayerState) -> (r: Result<(), BackendError>)
        ensures
            Self::step(*old(self), Call::SetState(state, r), *final(self)),
            final(self).caps() == old(self).caps(),
            final(self).level() == old(self).level(),
            final(self).curve() == old(self).curve(),
            final(self).installed() == old(self).installed(),
            final(self).deferred() == old(self).deferred(),
            r is Ok ==> final(self).transport() == state,
    ;

    /// Jumps to an absolute position, in nanoseconds.
    fn seek(&mut self, to: u64) -> (r: Result<(), BackendError>)
        ensures
            Self::step(*old(self), Call::Seek(to, r), *final(self)),
            final(self).caps() == old(self).caps(),
            final(self).level() == old(self).level(),
            final(self).curve() == old(self).curve(),
            final(self).installed() == old(self).installed(),
            final(self).deferred() == old(self).deferred(),
    ;

    /// Position and duration as of now.
    fn timeline(&self) -> (r: Timeline);

    /// The next transport-significant event, or `None` once the backend has
    /// caught up, so that a caller that drains cannot be starved. Never blocks.
    fn poll_event(&mut self) -> (r: Option<BusEvent>)
        ensures
            Self::step(*old(self), Call::PollEvent(r), *final(self)),
            final(self).caps() == old(self).caps(),
            final(self).level() == old(self).level(),
            final(self).curve() == old(self).curve(),
            final(self).installed() == old(self).installed(),
            final(self).deferred() == old(self).deferred(),
            r is Some ==> final(self).backlog() < old(self).backlog(),
    ;

    /// Sets the audible output level.
    fn set_output_gain(&mut self, gain: Amplitude)
        ensures
            Self::step(*old(self), Call::SetOutputGain(gain), *final(self)),
            final(self).caps() == old(self).caps(),
            final(self).level() == gain,
            final(self).curve() == old(self).curve(),
            final(self).installed() == old(self).installed(),
            final(self).deferred() == old(self).deferred(),
            final(self).transport() == old(self).transport(),
    ;

    /// Installs all ten band gains; a silent no-op without an equalizer.
    fn set_eq(&mut self, curve: &EqCurve)
        ensures
            Self::step(*old(self), Call::SetEq(*curve), *final(self)),
            final(self).caps() == old(self).caps(),
            final(self).level() == old(self).level(),
            final(self).curve() == (if old(self).caps().eq {
                *curve
            } else {
                old(self).curve()
            }),
            final(self).installed() == old(self).installed(),
            final(self).deferred() == old(self).deferred(),
            final(self).transport() == old(self).transport(),
    ;

    /// Makes the normalization stage match `want`, as far as the installation
    /// can, now or at the next load. A backend that cannot normalize answers now and changes nothing.
    fn set_normalization(&mut self, want: Normalization) -> (r: Applied)
        ensures
            Self::step(*old(self), Call::SetNormalization(want, r), *final(self)),
            final(self).caps() == old(self).caps(),
            final(self).level() == old(self).level(),
            final(self).curve() == old(self).curve(),
            final(self).transport() == old(self).transport(),
            !old(self).caps().normalization ==> {
                &&& r == Applied::Now
                &&& final(self).installed() == old(self).installed()
                &&& final(self).deferred() == old(self).deferred()
            },
            old(self).caps().normalization ==> match r {
                Applied::Now => serves(final(self).installed(), want) && final(self).deferred() is None,
                Applied::AtNextLoad => final(self).installed() == old(self).installed()
                    && final(self).deferred() == Some(want),
            },
    ;
}

/// A value moved into a range lies in it, stays where it was in it, and else goes to the
/// nearer end.
pub proof fn law_a_clamped_value_is_the_nearest(v: int, lo: int, hi: int, other: int)
    requires
        lo <= hi,
        lo <= other <= hi,
    ensures
        lo <= clamped(v, lo, hi) <= hi,
        lo <= v <= hi ==> clamped(v, lo, hi) == v,
        v <= clamped(v, lo, hi) ==> clamped(v, lo, hi) - v <= if other >= v {
            other - v
        } else {
            v - other
        },
        v >= clamped(v, lo, hi) ==> v - clamped(v, lo, hi) <= if other >= v {
            other - v
        } else {
            v - other
        },
{
}

/// A band moves twelve decibels either way and no further.
pub proof fn law_a_band_stays_within_twelve_decibels(db: i64)
    ensures
        -12_000_000 <= band_clamped(db) <= 12_000_000,
        -12_000_000 <= db <= 12_000_000 ==> band_clamped(db) == db,
        db > 12_000_000 ==> band_clamped(db) == 12_000_000,
        db < -12_000_000 ==> band_clamped(db) == -12_000_000,
{
}

/// Gains that are given set the bands they are given for, in their order, and leave the
/// others; a flat curve has ten bands at nought.
pub proof fn law_given_gains_set_their_own_bands(before: Seq<i64>, given: Seq<i64>, i: int)
    requires
        before.len() == 10,
        0 <= i < 10,
    ensures
        merged_bands(before, given).len() == 10,
        i < given.len() && -12_000_000 <= given[i] <= 12_000_000 ==> merged_bands(before, given)[i]
            == given[i],
        i >= given.len() ==> merged_bands(before, given)[i] == before[i],
        flat_bands().len() == 10,
        flat_bands()[i] == 0,
{
}

/// A source stands for the URI it was read from: a disc track for that track in that
/// drive, and anything else for the URI itself.
pub proof fn law_a_source_stands_for_its_uri(
    source: MediaSource,
    uri: Seq<char>,
    number: nat,
    device: Seq<char>,
)
    requires
        source.stands_for(uri),
    ensures
        source matches MediaSource::Uri(u) ==> u@ == uri && !disc::is_cdda(uri),
        !disc::is_cdda(uri) ==> source is Uri,
        uri == disc::track_uri(number, device) ==> {
            &&& source matches MediaSource::CdTrack { track, device: d }
            &&& track@ == crate::text::decimal(number)
            &&& d matches Some(text) && text@ == device
        },
{
    if uri == disc::track_uri(number, device) {
        disc::law_track_uri_reads_back(number, device);
    }
}

/// A normalization that serves another plays with its gains, and has no stage that was not
/// asked for.
pub proof fn law_a_served_normalization_keeps_the_gains(got: Normalization, want: Normalization)
    requires
        serves(got, want),
    ensures
        got.fallback_db == want.fallback_db,
        got.album_mode == want.album_mode,
        !want.enabled ==> !got.enabled,
        !want.clip_protection ==> !got.clip_protection,
        serves(want, want),
{
}

} // verus!
