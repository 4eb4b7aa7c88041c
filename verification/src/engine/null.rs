//! A backend with no audio stack behind it: everything the seam promises,
//! recorded rather than performed.

use crate::engine::analysis::AnalysisTap;
use crate::engine::backend::{
    Amplitude, Applied, AudioBackend, BackendError, Call, Capabilities, EqCurve, MediaSource,
    Normalization, Timeline,
};
use crate::engine::{BusEvent, PlayerState};
use vstd::prelude::*;

verus! {

/// Whether going from `have` to `want` changes which stages stand in the audio
/// path, as against a value that a running stage can take.
pub open spec fn reshapes(have: Normalization, want: Normalization) -> bool {
    want.enabled != have.enabled || (want.enabled && want.clip_protection != have.clip_protection)
}

/// Whether going from `have` to `want` changes which stages stand in the audio
/// path.
pub fn needs_reshape(have: &Normalization, want: &Normalization) -> (r: bool)
    ensures
        r == reshapes(*have, *want),
{
    want.enabled != have.enabled || (want.enabled && want.clip_protection != have.clip_protection)
}

pub struct NullBackend {
    eq: EqCurve,
    gain: Amplitude,
    normalization: Normalization,
    pending: Option<Normalization>,
    defer_reshape: bool,
    state: PlayerState,
    events: Vec<BusEvent>,
    tap: AnalysisTap,
}

/// What a backend with no audio stack holds.
pub struct NullView {
    pub eq: EqCurve,
    pub gain: Amplitude,
    pub normalization: Normalization,
    pub pending: Option<Normalization>,
    /// Whether a change of shape waits for a load while running.
    pub defers: bool,
    pub state: PlayerState,
    /// Events not yet polled, oldest first.
    pub events: Seq<BusEvent>,
    /// The write half of the visualizer buffers, to which nothing is written.
    pub tap: AnalysisTap,
}

impl View for NullBackend {
    type V = NullView;

    closed spec fn view(&self) -> NullView {
        NullView {
            eq: self.eq,
            gain: self.gain,
            normalization: self.normalization,
            pending: self.pending,
            defers: self.defer_reshape,
            state: self.state,
            events: self.events@,
            tap: self.tap,
        }
    }
}

impl NullBackend {
    /// The curve in force, as the backend received it.
    pub fn eq(&self) -> (r: EqCurve)
        ensures
            r == self.curve(),
    {
        self.eq
    }

    /// The last output level pushed across the seam.
    pub fn output_gain(&self) -> (r: Amplitude)
        ensures
            r == self.level(),
    {
        self.gain
    }

    /// The normalization in force, which is not the last one asked for while
    /// a change is deferred.
    pub fn normalization(&self) -> (r: Normalization)
        ensures
            r == self.installed(),
    {
        self.normalization
    }

    /// Puts the backend in a state that a player cannot drive it to on its own.
    pub fn force_state(&mut self, state: PlayerState)
        ensures
            final(self)@ == (NullView { state, ..old(self)@ }),
    {
        self.state = state;
    }

    /// Queues an event for a later poll.
    pub fn post_event(&mut self, event: BusEvent)
        ensures
            final(self)@ == (NullView { events: old(self)@.events.push(event), ..old(self)@ }),
    {
        self.events.push(event);
    }

    /// Behave like an adapter that can only reshape its audio path while
    /// stopped.
    pub fn defer_reshape(&mut self, defer: bool)
        ensures
            final(self)@ == (NullView { defers: defer, ..old(self)@ }),
    {
        self.defer_reshape = defer;
    }
}

impl AudioBackend for NullBackend {
    open spec fn caps(&self) -> Capabilities {
        Capabilities { eq: true, spectrum: true, normalization: true }
    }

    open spec fn level(&self) -> Amplitude {
        self@.gain
    }

    open spec fn curve(&self) -> EqCurve {
        self@.eq
    }

    open spec fn installed(&self) -> Normalization {
        self@.normalization
    }

    open spec fn deferred(&self) -> Option<Normalization> {
        self@.pending
    }

    open spec fn transport(&self) -> PlayerState {
        self@.state
    }

    open spec fn backlog(&self) -> nat {
        self@.events.len()
    }

    /// Nothing is ever refused, and events come out in the order in which they
    /// were posted.
    open spec fn step(before: Self, call: Call, after: Self) -> bool {
        let b = before@;
        match call {
            Call::Load(_, r) => r == Ok::<(), BackendError>(()) && after@ == (NullView {
                normalization: match b.pending {
                    Some(want) => want,
                    None => b.normalization,
                },
                pending: None,
                state: PlayerState::Stopped,
                ..b
            }),
            Call::SetState(state, r) => r == Ok::<(), BackendError>(()) && after@ == (NullView {
                state,
                ..b
            }),
            Call::Seek(_, r) => r == Ok::<(), BackendError>(()) && after@ == b,
            Call::PollEvent(r) => if b.events.len() == 0 {
                r is None && after@ == b
            } else {
                r == Some(b.events[0]) && after@ == (NullView {
                    events: b.events.subrange(1, b.events.len() as int),
                    ..b
                })
            },
            Call::SetOutputGain(gain) => after@ == (NullView { gain, ..b }),
            Call::SetEq(eq) => after@ == (NullView { eq, ..b }),
            Call::SetNormalization(want, r) => if reshapes(b.normalization, want) && b.defers && b.state
                != PlayerState::Stopped {
                r == Applied::AtNextLoad && after@ == (NullView { pending: Some(want), ..b })
            } else {
                r == Applied::Now && after@ == (NullView {
                    pending: None,
                    normalization: want,
                    ..b
                })
            },
        }
    }

    fn open(tap: AnalysisTap) -> (r: Result<NullBackend, BackendError>)
        ensures
            r matches Ok(b) && b@.eq.bands() == crate::engine::backend::flat_bands() && b@ == (NullView {
                eq: b@.eq,
                gain: Amplitude { ppb: crate::engine::backend::UNITY_PPB },
                normalization: Normalization {
                    enabled: false,
                    clip_protection: false,
                    fallback_db: 0,
                    album_mode: false,
                },
                pending: None,
                defers: false,
                state: PlayerState::Stopped,
                events: Seq::empty(),
                tap,
            }),
    {
        Ok(
            NullBackend {
                eq: EqCurve::flat(),
                gain: Amplitude::unity(),
                normalization: Normalization {
                    enabled: false,
                    clip_protection: false,
                    fallback_db: 0,
                    album_mode: false,
                },
                pending: None,
                defer_reshape: false,
                state: PlayerState::Stopped,
                events: Vec::new(),
                tap,
            },
        )
    }

    fn capabilities(&self) -> (r: Capabilities) {
        Capabilities { eq: true, spectrum: true, normalization: true }
    }

    fn load(&mut self, source: &MediaSource) -> (r: Result<(), BackendError>)
    {
        if let Some(want) = self.pending.take() {
            self.normalization = want;
        }
        self.state = PlayerState::Stopped;
        Ok(())
    }

    fn set_state(&mut self, state: PlayerState) -> (r: Result<(), BackendError>)
    {
        self.state = state;
        Ok(())
    }

    fn seek(&mut self, to: u64) -> (r: Result<(), BackendError>)
    {
        Ok(())
    }

    fn timeline(&self) -> (r: Timeline)
        ensures
            r.position is None,
            r.duration is None,
    {
        Timeline { position: None, duration: None }
    }

    fn poll_event(&mut self) -> (r: Option<BusEvent>)
    {
        if self.events.len() == 0 {
            None
        } else {
            let e = self.events.remove(0);
            assert(self.events@ =~= old(self).events@.subrange(1, old(self).events@.len() as int));
            Some(e)
        }
    }

    fn set_output_gain(&mut self, gain: Amplitude)
    {
        self.gain = gain;
    }

    fn set_eq(&mut self, curve: &EqCurve)
    {
        self.eq = *curve;
    }

    fn set_normalization(&mut self, want: Normalization) -> (r: Applied)
    {
        if needs_reshape(&self.normalization, &want) && self.defer_reshape && self.state
            != PlayerState::Stopped {
            self.pending = Some(want);
            return Applied::AtNextLoad;
        }
        self.pending = None;
        self.normalization = want;
        Applied::Now
    }
}

/// The stages of normalization are rebuilt where it is switched on or off, or where its
/// protection changes while it is on; a change of the gains alone rebuilds nothing.
pub proof fn law_only_the_stages_in_use_are_rebuilt(have: Normalization, want: Normalization)
    ensures
        want.enabled == have.enabled && want.clip_protection == have.clip_protection ==> !reshapes(
            have,
            want,
        ),
        !want.enabled && !have.enabled ==> !reshapes(have, want),
        want.enabled && !have.enabled ==> reshapes(have, want),
        !want.enabled && have.enabled ==> reshapes(have, want),
        want.enabled && have.enabled && want.clip_protection && !have.clip_protection ==> reshapes(
            have,
            want,
        ),
        want.enabled && have.enabled && !want.clip_protection && have.clip_protection ==> reshapes(
            have,
            want,
        ),
{
}

/// What the silent backend was told is what it shows, it hands its events out first come
/// first served, and each call leaves the rest of it alone.
pub proof fn law_the_silent_backend_does_as_it_is_told(
    before: NullBackend,
    after: NullBackend,
    state: PlayerState,
    gain: Amplitude,
    eq: EqCurve,
)
    ensures
        NullBackend::step(before, Call::SetState(state, Ok(())), after) ==> after@.state == state
            && after@.gain == before@.gain && after@.eq == before@.eq && after@.events
            == before@.events && after@.normalization == before@.normalization,
        NullBackend::step(before, Call::SetOutputGain(gain), after) ==> after@.gain == gain
            && after@.state == before@.state && after@.eq == before@.eq && after@.events
            == before@.events,
        NullBackend::step(before, Call::SetEq(eq), after) ==> after@.eq == eq && after@.state
            == before@.state && after@.gain == before@.gain && after@.events == before@.events,
        before@.events.len() > 0 ==> NullBackend::step(
            before,
            Call::PollEvent(Some(before@.events[0])),
            after,
        ) ==> seq![before@.events[0]] + after@.events == before@.events,
        before@.events.len() > 0 ==> !NullBackend::step(before, Call::PollEvent(None), after),
        NullBackend::step(before, Call::PollEvent(None), after) ==> after@ == before@,
{
}

/// A normalization that needs a rebuild while something plays waits for the next load where
/// the backend defers; the load installs what waits. Anything else is in force at once.
pub proof fn law_the_silent_backend_defers_a_rebuild(
    before: NullBackend,
    waiting: NullBackend,
    loaded: NullBackend,
    want: Normalization,
    applied: Applied,
    source: MediaSource,
)
    requires
        NullBackend::step(before, Call::SetNormalization(want, applied), waiting),
        NullBackend::step(waiting, Call::Load(source, Ok(())), loaded),
    ensures
        loaded@.normalization == want,
        loaded@.pending is None,
        loaded@.state == PlayerState::Stopped,
        applied == Applied::Now ==> waiting@.normalization == want,
        applied == Applied::AtNextLoad ==> waiting@.normalization == before@.normalization,
        !before@.defers ==> applied == Applied::Now,
        before@.state == PlayerState::Stopped ==> applied == Applied::Now,
        want.enabled == before@.normalization.enabled && want.clip_protection
            == before@.normalization.clip_protection ==> applied == Applied::Now,
        before@.defers && before@.state == PlayerState::Playing && want.enabled
            != before@.normalization.enabled ==> applied == Applied::AtNextLoad,
{
}

} // verus!
