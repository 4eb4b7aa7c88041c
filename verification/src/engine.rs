//! The playback engine: the transport state machine, the fadeout ramp,
//! stop-after-current, the output rule `volume * pre-amp * fade` and the
//! policy of which gain applies to a track, over whichever audio stack
//! [`backend::AudioBackend`] names.

pub mod analysis;
pub mod avf;
pub mod backend;
pub mod gst;
pub mod null;

use crate::engine::analysis::{Analysis, AnalysisTap};
use crate::engine::backend::{
    Amplitude, Applied, AudioBackend, BackendError, Call, Capabilities, EqCurve, MediaSource,
    Normalization, Timeline, UNITY_PPB,
};
use vstd::prelude::*;

verus! {

/// Least pre-amp multiplier, in parts per billion.
pub const PREAMP_MIN: u64 = 500_000_000;

/// Greatest pre-amp multiplier, in parts per billion.
pub const PREAMP_MAX: u64 = 1_500_000_000;

/// The two events a backend can signal that a caller cares about.
#[derive(Debug, Clone, Copy, PartialEq, Eq, Structural)]
pub enum BusEvent {
    /// The current track finished playing normally.
    Eos,
    /// The backend reported a fatal error.
    Error,
}

/// The three mutually exclusive transport states.
#[derive(Debug, Clone, Copy, PartialEq, Eq, Structural)]
pub enum PlayerState {
    /// No track loaded, or playback has been explicitly stopped.
    Stopped,
    /// A track is loaded and audio is being decoded and output.
    Playing,
    /// A track is loaded but decoding is frozen; the position is kept.
    Paused,
}

/// An in-flight stop-with-fadeout ramp, in nanoseconds of a clock that never
/// goes back.
#[derive(Debug, Clone, Copy, PartialEq, Eq, Structural)]
pub struct Fadeout {
    pub started: u64,
    /// How long a fade from unity would take.
    pub duration: u64,
    /// The level the ramp starts from, in parts per billion.
    pub from: u64,
}

/// The shape a user asked of the normalization stage.
#[derive(Debug, Clone, Copy, PartialEq, Eq, Structural)]
pub struct RgChain {
    pub enabled: bool,
    pub clip_protection: bool,
    /// In millionths of a decibel.
    pub fallback_db: i64,
}

/// Everything a [`Player`] holds beside its backend and its visualizer buffers.
pub struct Settings {
    pub caps: Capabilities,
    pub state: PlayerState,
    pub stop_after_current: bool,
    pub fadeout: Option<Fadeout>,
    pub fade_factor: u64,
    pub eq: EqCurve,
    pub preamp: u64,
    pub volume: u64,
    pub rg: RgChain,
    pub album_mode: bool,
    pub db_gain: Option<i64>,
    pub track_fallback_db: Option<i64>,
    pub reload_pending: bool,
    pub fake_position: Option<u64>,
}

/// The output level: volume, pre-amp and fade multiplied, rounded down.
pub open spec fn composed(volume: int, preamp: int, fade: int) -> int {
    (volume * preamp * fade) / 1_000_000_000_000_000_000
}

impl Fadeout {
    /// How long the fade has run at `now`.
    pub open spec fn elapsed(self, now: u64) -> int {
        if now > self.started {
            now - self.started
        } else {
            0
        }
    }

    /// Whether the ramp has reached silence at `now`.
    pub open spec fn over(self, now: u64) -> bool {
        self.elapsed(now) * UNITY_PPB >= self.from * self.duration
    }

    /// The level of a ramp that is not over at `now`.
    pub open spec fn level(self, now: u64) -> int {
        self.from - (self.elapsed(now) * UNITY_PPB) / (self.duration as int)
    }

    /// The level a new ramp starts from when this one is cut short at `now`:
    /// this one's level, with a fraction of a part dropped.
    pub open spec fn level_at_restart(self, now: u64) -> int {
        if self.over(now) {
            0
        } else {
            self.from - (self.elapsed(now) * UNITY_PPB + self.duration - 1) / (self.duration as int)
        }
    }

    /// The fade that a stop asked for at `now` starts: from the level of the
    /// fade that runs, or from unity where none does.
    pub open spec fn begun(running: Option<Fadeout>, now: u64, duration: u64) -> Fadeout {
        Fadeout {
            started: now,
            duration,
            from: match running {
                Some(fade) => fade.level_at_restart(now) as u64,
                None => UNITY_PPB,
            },
        }
    }

    /// How long the fade has run, in parts per billion of a nanosecond, and
    /// how long it has to run.
    fn progress(&self, now: u64) -> (r: (u128, u128))
        requires
            self.from <= UNITY_PPB,
        ensures
            r.0 == self.elapsed(now) * UNITY_PPB,
            r.1 == self.from * self.duration,
            r.0 <= 0xffff_ffff_ffff_ffff * UNITY_PPB,
    {
        let run: u64 = if now > self.started {
            now - self.started
        } else {
            0
        };
        assert(0 <= run * UNITY_PPB <= 0xffff_ffff_ffff_ffff * UNITY_PPB) by (nonlinear_arith)
            requires
                0 <= run <= 0xffff_ffff_ffff_ffff,
        ;
        assert(0 <= self.from * self.duration <= UNITY_PPB * 0xffff_ffff_ffff_ffff)
            by (nonlinear_arith)
            requires
                self.from <= UNITY_PPB,
                self.duration <= 0xffff_ffff_ffff_ffff,
        ;
        ((run as u128) * (UNITY_PPB as u128), (self.from as u128) * (self.duration as u128))
    }

    /// The level of a ramp at `now`, or `None` where it is over.
    pub fn poll(&self, now: u64) -> (r: Option<u64>)
        requires
            self.from <= UNITY_PPB,
        ensures
            match r {
                None => self.over(now),
                Some(level) => !self.over(now) && level == self.level(now) && 0 < level <= self.from,
            },
    {
        let (run, whole) = self.progress(now);
        if run >= whole {
            return None;
        }
        let d: u128 = self.duration as u128;
        proof {
            assert(d > 0) by (nonlinear_arith)
                requires
                    run < self.from * d,
                    0 <= run,
                    0 <= d,
            ;
            assert(run < d * self.from) by (nonlinear_arith)
                requires
                    run < self.from * d,
            ;
            vstd::arithmetic::div_mod::lemma_multiply_divide_lt(run as int, d as int, self.from as int);
            vstd::arithmetic::div_mod::lemma_div_pos_is_pos(run as int, d as int);
        }
        Some(self.from - (run / d) as u64)
    }

    /// The fade that a stop asked for at `now` starts. Asked for while another
    /// runs, it starts from that one's level.
    pub fn begin(running: Option<Fadeout>, now: u64, duration: u64) -> (r: Fadeout)
        requires
            running matches Some(fade) ==> fade.from <= UNITY_PPB,
        ensures
            r == Fadeout::begun(running, now, duration),
            r.from <= UNITY_PPB,
    {
        let from: u64 = match running {
            None => UNITY_PPB,
            Some(fade) => {
                let (run, whole) = fade.progress(now);
                if run >= whole {
                    0
                } else {
                    let d: u128 = fade.duration as u128;
                    proof {
                        assert(d > 0) by (nonlinear_arith)
                            requires
                                run < fade.from * d,
                                0 <= run,
                                0 <= d,
                        ;
                        assert(run + d - 1 < (fade.from + 1) * d) by (nonlinear_arith)
                            requires
                                run < fade.from * d,
                                d > 0,
                        ;
                        vstd::arithmetic::div_mod::lemma_multiply_divide_lt(
                            run + d - 1,
                            d as int,
                            fade.from + 1,
                        );
                        vstd::arithmetic::div_mod::lemma_div_pos_is_pos(run + d - 1, d as int);
                    }
                    fade.from - ((run + d - 1) / d) as u64
                }
            },
        };
        Fadeout { started: now, duration, from }
    }
}

/// Asking again for a stop that already fades never makes it later: at any
/// instant at which the running fade would have been over, the new one is too.
pub proof fn law_second_fadeout_never_later(fade: Fadeout, now: u64, duration: u64, then: u64)
    requires
        fade.from <= UNITY_PPB,
        duration <= fade.duration,
        fade.started <= now <= then,
        fade.over(then),
    ensures
        Fadeout::begun(Some(fade), now, duration).over(then),
        Fadeout::begun(Some(fade), now, duration).from <= fade.from,
{
    let d = fade.duration as int;
    let f = fade.from as int;
    let x = fade.elapsed(now) * UNITY_PPB;
    let e2 = then - now;
    let g = fade.level_at_restart(now);
    assert(x >= 0) by (nonlinear_arith)
        requires
            x == fade.elapsed(now) * UNITY_PPB,
            fade.elapsed(now) >= 0,
    ;
    if fade.over(now) {
        assert(0 * duration == 0);
        assert(e2 * UNITY_PPB >= 0) by (nonlinear_arith)
            requires
                e2 >= 0,
        ;
    } else {
        assert(d > 0) by (nonlinear_arith)
            requires
                x < f * d,
                0 <= x,
                0 <= d,
        ;
        let q = (x + d - 1) / d;
        vstd::arithmetic::div_mod::lemma_fundamental_div_mod(x + d - 1, d);
        assert(x <= q * d) by (nonlinear_arith)
            requires
                x + d - 1 == d * q + (x + d - 1) % d,
                0 <= (x + d - 1) % d < d,
        ;
        assert(x + d - 1 < (f + 1) * d) by (nonlinear_arith)
            requires
                x < f * d,
                d > 0,
        ;
        vstd::arithmetic::div_mod::lemma_multiply_divide_lt(x + d - 1, d, f + 1);
        vstd::arithmetic::div_mod::lemma_div_pos_is_pos(x + d - 1, d);
        assert(g == f - q);
        assert(0 <= g <= f);
        assert(e2 * UNITY_PPB >= f * d - x) by (nonlinear_arith)
            requires
                (then - fade.started) * UNITY_PPB >= f * d,
                x == (now - fade.started) * UNITY_PPB,
                e2 == then - now,
        ;
        assert(g * d <= f * d - x) by (nonlinear_arith)
            requires
                g == f - q,
                x <= q * d,
        ;
        assert(g * duration <= g * d) by (nonlinear_arith)
            requires
                0 <= g,
                duration <= d,
        ;
        assert(fade.elapsed(then) == then - fade.started);
    }
}

/// A fade only falls: while it runs its level never rises from one instant to a
/// later one, and once it is over it stays over.
pub proof fn law_a_fade_only_falls(fade: Fadeout, now: u64, then: u64)
    requires
        fade.from <= UNITY_PPB,
        now <= then,
    ensures
        fade.over(now) ==> fade.over(then),
        !fade.over(then) ==> fade.level(then) <= fade.level(now) <= fade.from,
{
    let x = fade.elapsed(now) * UNITY_PPB;
    let y = fade.elapsed(then) * UNITY_PPB;
    let d = fade.duration as int;
    assert(0 <= x <= y) by (nonlinear_arith)
        requires
            0 <= fade.elapsed(now) <= fade.elapsed(then),
            x == fade.elapsed(now) * UNITY_PPB,
            y == fade.elapsed(then) * UNITY_PPB,
    ;
    if !fade.over(then) {
        assert(d > 0) by (nonlinear_arith)
            requires
                0 <= y < fade.from * d,
                0 <= d,
        ;
        vstd::arithmetic::div_mod::lemma_div_is_ordered(x, y, d);
        vstd::arithmetic::div_mod::lemma_div_pos_is_pos(x, d);
    }
}

impl Settings {
    /// What every operation keeps: the factors lie in their ranges, and no
    /// attenuation is left behind once no fade runs.
    pub open spec fn wf(self) -> bool {
        &&& self.volume <= UNITY_PPB
        &&& PREAMP_MIN <= self.preamp <= PREAMP_MAX
        &&& self.fade_factor <= UNITY_PPB
        &&& self.fadeout is None ==> self.fade_factor == UNITY_PPB
        &&& self.fadeout matches Some(fade) ==> fade.from <= UNITY_PPB
    }

    /// The audible level these settings ask for.
    pub open spec fn output(self) -> int {
        composed(self.volume as int, self.preamp as int, self.fade_factor as int)
    }

    /// The complete normalization picture these settings ask for.
    pub open spec fn wanted(self) -> Normalization {
        Normalization {
            enabled: self.rg.enabled,
            clip_protection: self.rg.clip_protection,
            fallback_db: match self.track_fallback_db {
                Some(db) => db,
                None => self.rg.fallback_db,
            },
            album_mode: self.album_mode,
        }
    }

    /// The level these settings ask for, as it is handed over.
    pub open spec fn gain(self) -> Amplitude {
        Amplitude { ppb: self.output() as u64 }
    }

    /// Whether a fade runs or has left its mark on the level.
    pub open spec fn fading(self) -> bool {
        self.fadeout is Some || self.fade_factor != UNITY_PPB
    }

    /// These settings with no fade and no attenuation.
    pub open spec fn unfaded(self) -> Settings {
        Settings { fadeout: None, fade_factor: UNITY_PPB, ..self }
    }
}

/// What giving up a fade asks of the audio path: the full level where a fade had
/// taken hold, nothing where none had.
pub open spec fn unfaded_path<B: AudioBackend>(s: Settings, before: B, after: B) -> bool {
    if s.fading() {
        B::step(before, Call::SetOutputGain(s.unfaded().gain()), after)
    } else {
        after == before
    }
}

/// The transport, the visualizer and the volume rules, over an audio stack.
pub struct Player<B: AudioBackend> {
    backend: B,
    set: Settings,
    analysis: Analysis,
}

impl<B: AudioBackend> Player<B> {
    /// The audio stack.
    pub closed spec fn audio(&self) -> B {
        self.backend
    }

    /// Everything beside the audio stack and the visualizer buffers.
    pub closed spec fn settings(&self) -> Settings {
        self.set
    }

    /// The read half of the visualizer buffers.
    pub closed spec fn visual(&self) -> Analysis {
        self.analysis
    }

    /// What every operation keeps.
    pub open spec fn wf(&self) -> bool {
        &&& self.settings().wf()
        &&& self.settings().caps == self.audio().caps()
    }

    /// The backend plays at the level the settings ask for.
    pub open spec fn level_in_step(&self) -> bool {
        self.audio().level().ppb == self.settings().output()
    }

    /// Whether `opened` is what building the audio path, on an empty tap of the
    /// scope's capacity, may come to.
    pub open spec fn may_open(opened: Result<B, BackendError>) -> bool {
        exists|tap: AnalysisTap|
            {
                &&& #[trigger] call_ensures(B::open, (tap,), opened)
                &&& tap.samples() == Seq::<i64>::empty()
                &&& tap.magnitude_frames() == Seq::<Seq<u64>>::empty()
                &&& tap.sample_capacity() == 8192
            }
    }

    /// Creates a player on a named backend: stopped, flat, at unity, with
    /// normalization off. It fails exactly where the backend does, and with the
    /// backend's error.
    pub fn open() -> (r: Result<Player<B>, BackendError>)
        ensures
            Self::may_open(
                match r {
                    Ok(p) => Ok(p.audio()),
                    Err(e) => Err(e),
                },
            ),
            r matches Ok(p) ==> {
                &&& p.wf()
                &&& p.level_in_step()
                &&& p.audio().deferred() is None
                &&& p.settings().eq.bands() == backend::flat_bands()
                &&& p.settings() == (Settings {
                    caps: p.audio().caps(),
                    state: PlayerState::Stopped,
                    stop_after_current: false,
                    fadeout: None,
                    fade_factor: UNITY_PPB,
                    eq: p.settings().eq,
                    preamp: UNITY_PPB,
                    volume: UNITY_PPB,
                    rg: RgChain { enabled: false, clip_protection: false, fallback_db: 0 },
                    album_mode: false,
                    db_gain: None,
                    track_fallback_db: None,
                    reload_pending: false,
                    fake_position: None,
                })
                &&& p.visual().bars() == analysis::zeros(64)
                &&& !p.visual().has_frame()
                &&& p.visual().scope() == Seq::<i64>::empty()
                &&& p.visual().scope_capacity() == 8192
            },
    {
        let analysis = Analysis::new(64, 8192);
        let backend = match B::open(analysis.tap()) {
            Ok(b) => b,
            Err(e) => return Err(e),
        };
        let caps = backend.capabilities();
        proof {
            lemma_unity();
        }
        Ok(
            Player {
                backend,
                set: Settings {
                    caps,
                    state: PlayerState::Stopped,
                    stop_after_current: false,
                    fadeout: None,
                    fade_factor: UNITY_PPB,
                    eq: EqCurve::flat(),
                    preamp: UNITY_PPB,
                    volume: UNITY_PPB,
                    rg: RgChain { enabled: false, clip_protection: false, fallback_db: 0 },
                    album_mode: false,
                    db_gain: None,
                    track_fallback_db: None,
                    reload_pending: false,
                    fake_position: None,
                },
                analysis,
            },
        )
    }

    /// Pushes volume, pre-amp and fade, multiplied, to the backend.
    fn apply_output_volume(&mut self)
        requires
            old(self).wf(),
        ensures
            final(self).wf(),
            final(self).settings() == old(self).settings(),
            final(self).visual() == old(self).visual(),
            final(self).level_in_step(),
            final(self).same_path(old(self)),
            B::step(
                old(self).audio(),
                Call::SetOutputGain(final(self).settings().gain()),
                final(self).audio(),
            ),
    {
        let gain = compose(self.set.volume, self.set.preamp, self.set.fade_factor);
        let level = Amplitude::linear(gain);
        assert(level == self.set.gain());
        self.backend.set_output_gain(level);
    }

    /// Hands the backend the complete normalization picture and records what
    /// it answered.
    fn push_normalization(&mut self)
        requires
            old(self).wf(),
        ensures
            final(self).wf(),
            final(self).settings() == (Settings {
                reload_pending: final(self).settings().reload_pending,
                ..old(self).settings()
            }),
            final(self).visual() == old(self).visual(),
            final(self).audio().level() == old(self).audio().level(),
            final(self).audio().curve() == old(self).audio().curve(),
            final(self).audio().transport() == old(self).audio().transport(),
            final(self).normalization_pushed(old(self)),
    {
        let want = Normalization {
            enabled: self.set.rg.enabled,
            clip_protection: self.set.rg.clip_protection,
            fallback_db: match self.set.track_fallback_db {
                Some(db) => db,
                None => self.set.rg.fallback_db,
            },
            album_mode: self.set.album_mode,
        };
        let applied = self.backend.set_normalization(want);
        self.set.reload_pending = applied == Applied::AtNextLoad;
    }

    /// What a push of the normalization leaves: the picture in force, or the
    /// picture deferred and a reload asked for. A backend that cannot normalize
    /// keeps what it has and never asks for a reload.
    pub open spec fn normalization_pushed(&self, before: &Self) -> bool {
        let want = self.settings().wanted();
        &&& B::step(
            before.audio(),
            Call::SetNormalization(
                want,
                if self.settings().reload_pending {
                    Applied::AtNextLoad
                } else {
                    Applied::Now
                },
            ),
            self.audio(),
        )
        &&& if !self.settings().caps.normalization {
            &&& !self.settings().reload_pending
            &&& self.audio().installed() == before.audio().installed()
            &&& self.audio().deferred() == before.audio().deferred()
        } else if self.settings().reload_pending {
            &&& self.audio().installed() == before.audio().installed()
            &&& self.audio().deferred() == Some(want)
        } else {
            &&& backend::serves(self.audio().installed(), want)
            &&& self.audio().deferred() is None
        }
    }
}

impl<B: AudioBackend> Player<B> {
    /// The backend keeps its curve, its normalization and its transport.
    pub open spec fn same_path(&self, before: &Self) -> bool {
        &&& self.audio().curve() == before.audio().curve()
        &&& self.audio().installed() == before.audio().installed()
        &&& self.audio().deferred() == before.audio().deferred()
        &&& self.audio().transport() == before.audio().transport()
    }

    /// The level after a fade was given up: restored where one had taken hold,
    /// untouched where none had.
    pub open spec fn level_restored(&self, before: &Self) -> bool {
        if before.settings().fading() {
            self.level_in_step()
        } else {
            self.audio().level() == before.audio().level()
        }
    }

    /// The settings of a player that has taken up the gain primed for the track
    /// that it is about to load.
    pub open spec fn tuned(&self) -> Settings {
        Settings {
            db_gain: None,
            track_fallback_db: self.settings().db_gain,
            ..self.settings()
        }
    }

    /// The calls that a load of `uri` makes: the normalization is handed over
    /// first, and the source is opened only then. Where it opened, a fade is
    /// given up last. `applied` is the answer to the first, `r` to the second.
    pub open spec fn load_calls(
        &self,
        before: &Self,
        uri: Seq<char>,
        applied: Applied,
        r: Result<(), BackendError>,
    ) -> bool {
        exists|shaped: B, source: MediaSource, opened: B|
            {
                &&& #[trigger] B::step(
                    before.audio(),
                    Call::SetNormalization(before.tuned().wanted(), applied),
                    shaped,
                )
                &&& source.stands_for(uri)
                &&& #[trigger] B::step(shaped, Call::Load(source, r), opened)
                &&& match r {
                    Ok(_) => unfaded_path(before.settings(), opened, self.audio()),
                    Err(_) => self.audio() == opened,
                }
            }
    }

    /// What a load of `uri` that succeeded leaves of the player it found.
    pub open spec fn load_done(&self, before: &Self) -> bool {
        &&& self.settings() == (Settings {
            state: PlayerState::Stopped,
            reload_pending: false,
            ..before.tuned().unfaded()
        })
        &&& self.audio().transport() == PlayerState::Stopped
        &&& self.audio().deferred() is None
        &&& self.settings().caps.normalization ==> backend::serves(
            self.audio().installed(),
            self.settings().wanted(),
        )
        &&& self.level_restored(before)
        &&& self.visual().scope() == Seq::<i64>::empty()
        &&& self.visual().bars() == before.visual().bars()
        &&& self.visual().has_frame() == before.visual().has_frame()
        &&& self.visual().scope_capacity() == before.visual().scope_capacity()
    }

    /// What a load that the backend refused leaves of the player it found.
    pub open spec fn load_refused(&self, before: &Self, applied: Applied) -> bool {
        &&& self.settings() == (Settings {
            reload_pending: applied == Applied::AtNextLoad,
            ..before.tuned()
        })
        &&& self.audio().level() == before.audio().level()
        &&& self.visual() == before.visual()
    }

    /// What a load of `uri` leaves of the player it found. `r` is the backend's
    /// answer.
    pub open spec fn load_settled(
        &self,
        before: &Self,
        uri: Seq<char>,
        r: Result<(), BackendError>,
    ) -> bool {
        &&& self.wf()
        &&& self.audio().curve() == before.audio().curve()
        &&& exists|applied: Applied| #[trigger]
            self.load_calls(before, uri, applied, r) && match r {
                Ok(_) => self.load_done(before),
                Err(_) => self.load_refused(before, applied),
            }
    }

    /// Loads a URI and resets to the stopped state. What is returned is the
    /// backend's own answer.
    ///
    /// The gain primed for this track is consumed whether or not the load
    /// succeeds, so a caller that forgets to prime the next track can only
    /// under-apply. A fade is given up once the outgoing track is silent, and
    /// the scope blanks while the bars keep their history.
    pub fn load(&mut self, uri: &str) -> (r: Result<(), BackendError>)
        requires
            old(self).wf(),
        ensures
            final(self).wf(),
            final(self).load_settled(old(self), uri@, r),
    {
        self.set.track_fallback_db = self.set.db_gain.take();
        self.push_normalization();
        let ghost shaped = self.backend;
        let ghost applied = if self.set.reload_pending {
            Applied::AtNextLoad
        } else {
            Applied::Now
        };
        let source = MediaSource::parse(uri);
        let r = self.backend.load(&source);
        assert(B::step(shaped, Call::Load(source, r), self.backend));
        if r.is_err() {
            assert(self.load_calls(old(self), uri@, applied, r));
            return r;
        }
        self.set.reload_pending = false;
        self.cancel_fadeout();
        self.analysis.reset_waveform();
        self.set.state = PlayerState::Stopped;
        assert(self.load_calls(old(self), uri@, applied, r));
        r
    }

    /// What a play leaves of the player it found: a fade is given up first, in
    /// either case, and the player plays where the audio path followed. `r` is
    /// the audio path's answer.
    pub open spec fn play_settled(&self, before: &Self, r: Result<(), BackendError>) -> bool {
        &&& self.visual() == before.visual()
        &&& self.level_restored(before)
        &&& self.settings() == (if r is Ok {
            Settings { state: PlayerState::Playing, ..before.settings().unfaded() }
        } else {
            before.settings().unfaded()
        })
        &&& exists|full: B| #[trigger]
            B::step(full, Call::SetState(PlayerState::Playing, r), self.audio()) && unfaded_path(
                before.settings(),
                before.audio(),
                full,
            )
        &&& r is Ok ==> self.audio().transport() == PlayerState::Playing
        &&& self.audio().curve() == before.audio().curve()
        &&& self.audio().installed() == before.audio().installed()
        &&& self.audio().deferred() == before.audio().deferred()
    }

    /// Begins or resumes playback, and returns the audio path's own answer. A
    /// fade in progress is given up first, whether or not the audio path follows.
    pub fn play(&mut self) -> (r: Result<(), BackendError>)
        requires
            old(self).wf(),
        ensures
            final(self).wf(),
            final(self).play_settled(old(self), r),
    {
        self.cancel_fadeout();
        let ghost full = self.backend;
        let r = self.backend.set_state(PlayerState::Playing);
        assert(B::step(full, Call::SetState(PlayerState::Playing, r), self.backend));
        if r.is_ok() {
            self.set.state = PlayerState::Playing;
        }
        r
    }

    /// What loading `uri` and then playing leaves of the player it found. `r` is
    /// the answer to the load, and the play goes by its own.
    pub open spec fn started(
        &self,
        before: &Self,
        uri: Seq<char>,
        r: Result<(), BackendError>,
    ) -> bool {
        exists|mid: Self, played: Result<(), BackendError>|
            {
                &&& #[trigger] mid.load_settled(before, uri, r)
                &&& #[trigger] self.play_settled(&mid, played)
            }
    }

    /// Loads `uri` and plays, even where the load was refused.
    pub fn start(&mut self, uri: &str) -> (r: Result<(), BackendError>)
        requires
            old(self).wf(),
        ensures
            final(self).wf(),
            final(self).started(old(self), uri@, r),
    {
        let r = self.load(uri);
        let ghost mid = *self;
        let played = self.play();
        proof {
            assert(mid.load_settled(old(self), uri@, r));
            assert(self.play_settled(&mid, played));
        }
        r
    }

    /// What priming a gain leaves of the player it found.
    pub open spec fn primed(&self, before: &Self, gain: Option<i64>) -> bool {
        &&& self.settings() == (Settings { db_gain: gain, ..before.settings() })
        &&& self.audio() == before.audio()
        &&& self.visual() == before.visual()
    }

    /// What priming a gain, loading `uri` and then playing leaves of the player
    /// it found.
    pub open spec fn started_primed(
        &self,
        before: &Self,
        uri: Seq<char>,
        gain: Option<i64>,
        r: Result<(), BackendError>,
    ) -> bool {
        exists|mid: Self| #[trigger] mid.primed(before, gain) && self.started(&mid, uri, r)
    }

    /// What a toggle of pause leaves of the player it found. `r` is the audio
    /// path's answer; nothing is asked of it when stopped.
    pub open spec fn toggle_settled(&self, before: &Self, r: Result<(), BackendError>) -> bool {
        let next = toggled(before.settings().state);
        &&& self.visual() == before.visual()
        &&& self.level_restored(before)
        &&& self.settings() == (if r is Ok {
            Settings { state: next, ..before.settings().unfaded() }
        } else {
            before.settings().unfaded()
        })
        &&& if before.settings().state == PlayerState::Stopped {
            r is Ok && unfaded_path(before.settings(), before.audio(), self.audio())
        } else {
            exists|full: B| #[trigger]
                B::step(full, Call::SetState(next, r), self.audio()) && unfaded_path(
                    before.settings(),
                    before.audio(),
                    full,
                )
        }
        &&& r is Ok && before.settings().state != PlayerState::Stopped ==> self.audio().transport()
            == next
        &&& self.audio().curve() == before.audio().curve()
        &&& self.audio().installed() == before.audio().installed()
        &&& self.audio().deferred() == before.audio().deferred()
    }

    /// Toggles between playing and paused, and returns the audio path's own
    /// answer; does nothing when stopped. A fade in progress is given up in every
    /// state.
    pub fn toggle_pause(&mut self) -> (r: Result<(), BackendError>)
        requires
            old(self).wf(),
        ensures
            final(self).wf(),
            final(self).toggle_settled(old(self), r),
    {
        self.cancel_fadeout();
        let next = match self.set.state {
            PlayerState::Playing => PlayerState::Paused,
            PlayerState::Paused => PlayerState::Playing,
            PlayerState::Stopped => return Ok(()),
        };
        let ghost full = self.backend;
        let r = self.backend.set_state(next);
        assert(B::step(full, Call::SetState(next, r), self.backend));
        if r.is_ok() {
            self.set.state = next;
        }
        r
    }

    /// What a stop leaves of the player it found: the level comes back only once
    /// the audio path is down, and everything is as it was where the audio path
    /// refused. `r` is its answer.
    pub open spec fn stop_settled(&self, before: &Self, r: Result<(), BackendError>) -> bool {
        &&& self.audio().curve() == before.audio().curve()
        &&& self.audio().installed() == before.audio().installed()
        &&& self.audio().deferred() == before.audio().deferred()
        &&& exists|down: B|
            {
                &&& #[trigger] B::step(
                    before.audio(),
                    Call::SetState(PlayerState::Stopped, r),
                    down,
                )
                &&& match r {
                    Ok(_) => unfaded_path(before.settings(), down, self.audio()),
                    Err(_) => self.audio() == down,
                }
            }
        &&& if r is Ok {
            &&& self.settings() == (Settings {
                state: PlayerState::Stopped,
                ..before.settings().unfaded()
            })
            &&& self.audio().transport() == PlayerState::Stopped
            &&& self.level_restored(before)
            &&& self.visual().scope() == Seq::<i64>::empty()
            &&& self.visual().scope_capacity() == before.visual().scope_capacity()
            &&& self.visual().bars() == analysis::zeros(before.visual().bars().len())
            &&& !self.visual().has_frame()
        } else {
            &&& self.settings() == before.settings()
            &&& self.audio().level() == before.audio().level()
            &&& self.visual() == before.visual()
        }
    }

    /// Stops playback, restores the level once the audio path is down, and
    /// collapses the visualizers. What is returned is the audio path's own answer.
    pub fn stop(&mut self) -> (r: Result<(), BackendError>)
        requires
            old(self).wf(),
        ensures
            final(self).wf(),
            final(self).stop_settled(old(self), r),
    {
        let r = self.backend.set_state(PlayerState::Stopped);
        assert(B::step(old(self).audio(), Call::SetState(PlayerState::Stopped, r), self.backend));
        if r.is_ok() {
            self.cancel_fadeout();
            self.set.state = PlayerState::Stopped;
            self.analysis.clear();
        }
        r
    }

    pub fn state(&self) -> (r: PlayerState)
        ensures
            r == self.settings().state,
    {
        self.set.state
    }

    /// Whether playback should stop when the current track ends.
    pub fn stop_after_current(&self) -> (r: bool)
        ensures
            r == self.settings().stop_after_current,
    {
        self.set.stop_after_current
    }

    pub fn set_stop_after_current(&mut self, v: bool)
        ensures
            final(self).settings() == (Settings { stop_after_current: v, ..old(self).settings() }),
            final(self).audio() == old(self).audio(),
            final(self).visual() == old(self).visual(),
    {
        self.set.stop_after_current = v;
    }

    /// Reads the flag and clears it in one step.
    pub fn take_stop_after_current(&mut self) -> (r: bool)
        ensures
            r == old(self).settings().stop_after_current,
            final(self).settings() == (Settings {
                stop_after_current: false,
                ..old(self).settings()
            }),
            final(self).audio() == old(self).audio(),
            final(self).visual() == old(self).visual(),
    {
        let v = self.set.stop_after_current;
        self.set.stop_after_current = false;
        v
    }

    /// Starts ramping the output down to silence; only while playing. Asked for
    /// while a fade runs, the ramp starts again from that fade's level.
    pub fn begin_fadeout(&mut self, now: u64, duration: u64)
        requires
            old(self).wf(),
        ensures
            final(self).wf(),
            final(self).settings() == (if old(self).settings().state == PlayerState::Playing {
                Settings {
                    fadeout: Some(Fadeout::begun(old(self).settings().fadeout, now, duration)),
                    ..old(self).settings()
                }
            } else {
                old(self).settings()
            }),
            final(self).audio() == old(self).audio(),
            final(self).visual() == old(self).visual(),
    {
        if self.set.state != PlayerState::Playing {
            return ;
        }
        self.set.fadeout = Some(Fadeout::begin(self.set.fadeout, now, duration));
    }

    /// What a fade that has reached silence leaves of the player it found. `r` is
    /// the audio path's answer to the stop: where it refused, the fade is given
    /// up and the player plays on.
    pub open spec fn fade_ended(&self, before: &Self, r: Result<(), BackendError>) -> bool {
        match r {
            Ok(_) => self.stop_settled(before, r),
            Err(_) => {
                &&& exists|held: B| #[trigger]
                    B::step(before.audio(), Call::SetState(PlayerState::Stopped, r), held)
                        && unfaded_path(before.settings(), held, self.audio())
                &&& self.settings() == before.settings().unfaded()
                &&& self.visual() == before.visual()
            },
        }
    }

    /// What a poll of the fade leaves of the player it found, and whether it
    /// reports that the fade has stopped the player.
    pub open spec fn fade_polled(&self, before: &Self, now: u64, finished: bool) -> bool {
        &&& self.audio().curve() == before.audio().curve()
        &&& self.audio().installed() == before.audio().installed()
        &&& self.audio().deferred() == before.audio().deferred()
        &&& match before.settings().fadeout {
            None => {
                &&& self.settings() == before.settings()
                &&& self.audio() == before.audio()
                &&& self.visual() == before.visual()
                &&& !finished
            },
            Some(fade) => {
                &&& self.level_in_step()
                &&& if before.settings().state != PlayerState::Playing {
                    &&& self.settings() == before.settings().unfaded()
                    &&& self.visual() == before.visual()
                    &&& self.audio().transport() == before.audio().transport()
                    &&& unfaded_path(before.settings(), before.audio(), self.audio())
                    &&& !finished
                } else if fade.over(now) {
                    exists|r: Result<(), BackendError>| #[trigger]
                        self.fade_ended(before, r) && finished == (r is Ok)
                } else {
                    &&& self.settings() == (Settings {
                        fade_factor: fade.level(now) as u64,
                        ..before.settings()
                    })
                    &&& 0 < fade.level(now) <= UNITY_PPB
                    &&& self.visual() == before.visual()
                    &&& self.audio().transport() == before.audio().transport()
                    &&& B::step(
                        before.audio(),
                        Call::SetOutputGain(self.settings().gain()),
                        self.audio(),
                    )
                    &&& !finished
                }
            },
        }
    }

    /// Advances an in-flight fadeout. `true` on the call that finishes it: the
    /// ramp is gone, the level is back, and the player is stopped. Where the
    /// audio path refuses to stop, the ramp is given up and nothing is reported.
    /// A track that ended on its own mid-fade drops the ramp without being
    /// reported.
    pub fn poll_fadeout(&mut self, now: u64) -> (r: bool)
        requires
            old(self).wf(),
        ensures
            final(self).wf(),
            final(self).fade_polled(old(self), now, r),
            r ==> final(self).settings().state == PlayerState::Stopped && final(self).settings().fadeout
                is None,
    {
        let fade = match self.set.fadeout {
            None => return false,
            Some(fade) => fade,
        };
        if self.set.state != PlayerState::Playing {
            self.cancel_fadeout();
            return false;
        }
        match fade.poll(now) {
            None => {
                let r = self.stop();
                if r.is_ok() {
                    assert(self.fade_ended(old(self), r));
                    true
                } else {
                    self.cancel_fadeout();
                    assert(self.fade_ended(old(self), r));
                    false
                }
            },
            Some(level) => {
                self.set.fade_factor = level;
                self.apply_output_volume();
                false
            },
        }
    }

    /// Abandons any in-flight fadeout and restores full output.
    pub fn cancel_fadeout(&mut self)
        requires
            old(self).wf(),
        ensures
            final(self).wf(),
            final(self).settings() == old(self).settings().unfaded(),
            final(self).visual() == old(self).visual(),
            final(self).same_path(old(self)),
            final(self).level_restored(old(self)),
            unfaded_path(old(self).settings(), old(self).audio(), final(self).audio()),
    {
        if self.set.fadeout.is_some() || self.set.fade_factor != UNITY_PPB {
            self.set.fadeout = None;
            self.set.fade_factor = UNITY_PPB;
            self.apply_output_volume();
        }
    }

    /// Whether a stop-with-fadeout ramp is running.
    pub fn is_fading_out(&self) -> (r: bool)
        ensures
            r == (self.settings().fadeout is Some),
    {
        self.set.fadeout.is_some()
    }

    /// Forces the player's own view of the transport without touching the
    /// backend.
    pub fn set_state_for_test(&mut self, s: PlayerState)
        ensures
            final(self).settings() == (Settings { state: s, ..old(self).settings() }),
            final(self).audio() == old(self).audio(),
            final(self).visual() == old(self).visual(),
    {
        self.set.state = s;
    }

    /// Makes [`Player::position`] answer `pos`, in nanoseconds.
    pub fn set_position_for_test(&mut self, pos: u64)
        ensures
            final(self).settings() == (Settings { fake_position: Some(pos), ..old(self).settings() }),
            final(self).audio() == old(self).audio(),
            final(self).visual() == old(self).visual(),
    {
        self.set.fake_position = Some(pos);
    }

    pub fn backend(&self) -> (r: &B)
        ensures
            *r == self.audio(),
    {
        &self.backend
    }

    pub fn backend_mut(&mut self) -> (r: &mut B)
        ensures
            *r == old(self).audio(),
            final(self).audio() == *final(r),
            final(self).settings() == old(self).settings(),
            final(self).visual() == old(self).visual(),
    {
        &mut self.backend
    }

    /// Whether `now` is an answer that the audio path may give when it is asked
    /// for its timeline.
    pub open spec fn may_report(&self, now: Timeline) -> bool {
        call_ensures(B::timeline, (&self.audio(),), now)
    }

    /// Whether the player may say that it is at `at`.
    pub open spec fn may_be_at(&self, at: Option<u64>) -> bool {
        match self.settings().fake_position {
            Some(pos) => at == Some(pos),
            None => exists|now: Timeline| #[trigger] self.may_report(now) && at == now.position,
        }
    }

    /// Whether the player may say that the loaded track lasts `total`.
    pub open spec fn may_last(&self, total: Option<u64>) -> bool {
        exists|now: Timeline| #[trigger] self.may_report(now) && total == now.duration
    }

    /// Whether the player may read its clock as `r`.
    pub open spec fn may_read(&self, r: Timeline) -> bool {
        exists|now: Timeline| #[trigger]
            self.may_report(now) && r == (Timeline {
                position: match self.settings().fake_position {
                    Some(pos) => Some(pos),
                    None => now.position,
                },
                duration: now.duration,
            })
    }

    /// The playback position in nanoseconds, or `None` if nothing is loaded.
    pub fn position(&self) -> (r: Option<u64>)
        ensures
            self.may_be_at(r),
    {
        if let Some(pos) = self.set.fake_position {
            return Some(pos);
        }
        let now = self.backend.timeline();
        assert(self.may_report(now));
        now.position
    }

    /// The duration of the loaded track in nanoseconds, or `None` if not known.
    pub fn duration(&self) -> (r: Option<u64>)
        ensures
            self.may_last(r),
    {
        let now = self.backend.timeline();
        assert(self.may_report(now));
        now.duration
    }

    /// Position and duration as of one instant.
    pub fn timeline(&self) -> (r: Timeline)
        ensures
            self.may_read(r),
    {
        let now = self.backend.timeline();
        assert(self.may_report(now));
        match self.set.fake_position {
            Some(pos) => Timeline { position: Some(pos), duration: now.duration },
            None => now,
        }
    }

    /// The position in microseconds, zero when unknown.
    pub fn position_usecs(&self) -> (r: i64)
        ensures
            exists|at: Option<u64>| #[trigger] self.may_be_at(at) && r == usecs_of(at),
    {
        usecs(self.position())
    }

    /// The length of the loaded track in microseconds, zero when unknown.
    pub fn length_usecs(&self) -> (r: i64)
        ensures
            exists|total: Option<u64>| #[trigger] self.may_last(total) && r == usecs_of(total),
    {
        usecs(self.duration())
    }

    /// Seeks to an absolute position, in nanoseconds, and returns the audio path's
    /// own answer.
    pub fn seek(&mut self, pos: u64) -> (r: Result<(), BackendError>)
        ensures
            final(self).settings() == old(self).settings(),
            final(self).visual() == old(self).visual(),
            final(self).audio().caps() == old(self).audio().caps(),
            final(self).audio().level() == old(self).audio().level(),
            final(self).audio().curve() == old(self).audio().curve(),
            final(self).audio().installed() == old(self).audio().installed(),
            final(self).audio().deferred() == old(self).audio().deferred(),
            B::step(old(self).audio(), Call::Seek(pos, r), final(self).audio()),
    {
        self.backend.seek(pos)
    }

    /// Sets the playback volume, clamped to zero and unity.
    pub fn set_volume(&mut self, vol: i64)
        requires
            old(self).wf(),
        ensures
            final(self).wf(),
            final(self).settings() == (Settings {
                volume: backend::clamped(vol as int, 0, UNITY_PPB as int) as u64,
                ..old(self).settings()
            }),
            final(self).level_in_step(),
            B::step(
                old(self).audio(),
                Call::SetOutputGain(final(self).settings().gain()),
                final(self).audio(),
            ),
            final(self).same_path(old(self)),
            final(self).visual() == old(self).visual(),
    {
        self.set.volume = clamp_level(vol, 0, UNITY_PPB);
        self.apply_output_volume();
    }

    /// Whether the backend can normalize at all.
    pub fn rg_available(&self) -> (r: bool)
        requires
            self.wf(),
        ensures
            r == self.audio().caps().normalization,
    {
        self.set.caps.normalization
    }

    /// Requests a normalization shape. A newly configured fallback replaces the
    /// gain primed for whatever is loaded now.
    pub fn set_replaygain(&mut self, cfg: RgChain)
        requires
            old(self).wf(),
        ensures
            final(self).wf(),
            final(self).settings() == (Settings {
                rg: cfg,
                track_fallback_db: if cfg.fallback_db != old(self).settings().rg.fallback_db {
                    None
                } else {
                    old(self).settings().track_fallback_db
                },
                reload_pending: final(self).settings().reload_pending,
                ..old(self).settings()
            }),
            final(self).normalization_pushed(old(self)),
            final(self).audio().level() == old(self).audio().level(),
            final(self).audio().curve() == old(self).audio().curve(),
            final(self).audio().transport() == old(self).audio().transport(),
            final(self).visual() == old(self).visual(),
    {
        if cfg.fallback_db != self.set.rg.fallback_db {
            self.set.track_fallback_db = None;
        }
        self.set.rg = cfg;
        self.push_normalization();
    }

    /// Whether a normalization change waits for the next load.
    pub fn rg_reload_pending(&self) -> (r: bool)
        ensures
            r == self.settings().reload_pending,
    {
        self.set.reload_pending
    }

    /// Switches between album and track gain.
    pub fn set_rg_album_mode(&mut self, album: bool)
        requires
            old(self).wf(),
        ensures
            final(self).wf(),
            final(self).settings() == (Settings {
                album_mode: album,
                reload_pending: final(self).settings().reload_pending,
                ..old(self).settings()
            }),
            final(self).normalization_pushed(old(self)),
            final(self).audio().level() == old(self).audio().level(),
            final(self).audio().curve() == old(self).audio().curve(),
            final(self).audio().transport() == old(self).audio().transport(),
            final(self).visual() == old(self).visual(),
    {
        self.set.album_mode = album;
        self.push_normalization();
    }

    /// Changes the gain of untagged files, of the one that plays now too.
    pub fn set_rg_fallback_db(&mut self, db: i64)
        requires
            old(self).wf(),
        ensures
            final(self).wf(),
            final(self).settings() == (Settings {
                rg: RgChain { fallback_db: db, ..old(self).settings().rg },
                track_fallback_db: None,
                reload_pending: final(self).settings().reload_pending,
                ..old(self).settings()
            }),
            final(self).normalization_pushed(old(self)),
            final(self).audio().level() == old(self).audio().level(),
            final(self).audio().curve() == old(self).audio().curve(),
            final(self).audio().transport() == old(self).audio().transport(),
            final(self).visual() == old(self).visual(),
    {
        self.set.rg.fallback_db = db;
        self.set.track_fallback_db = None;
        self.push_normalization();
    }

    /// Primes the gain of the track that the next load opens.
    pub fn set_rg_db_gain(&mut self, db: Option<i64>)
        ensures
            final(self).settings() == (Settings { db_gain: db, ..old(self).settings() }),
            final(self).audio() == old(self).audio(),
            final(self).visual() == old(self).visual(),
    {
        self.set.db_gain = db;
    }

    /// Whether the backend has a working equalizer.
    pub fn has_eq(&self) -> (r: bool)
        requires
            self.wf(),
        ensures
            r == self.audio().caps().eq,
    {
        self.set.caps.eq
    }

    /// Whether the backend can produce spectrum data.
    pub fn has_spectrum(&self) -> (r: bool)
        requires
            self.wf(),
        ensures
            r == self.audio().caps().spectrum,
    {
        self.set.caps.spectrum
    }

    /// The backend holds the curve that the player remembers, where it has an
    /// equalizer at all.
    pub open spec fn curve_pushed(&self, before: &Self) -> bool {
        &&& self.audio().curve() == (if self.settings().caps.eq {
            self.settings().eq
        } else {
            before.audio().curve()
        })
        &&& self.level_in_step()
        &&& exists|shaped: B| #[trigger]
            B::step(before.audio(), Call::SetEq(self.settings().eq), shaped) && B::step(
                shaped,
                Call::SetOutputGain(self.settings().gain()),
                self.audio(),
            )
        &&& self.audio().installed() == before.audio().installed()
        &&& self.audio().deferred() == before.audio().deferred()
        &&& self.audio().transport() == before.audio().transport()
        &&& self.visual() == before.visual()
    }

    /// Sets one equalizer band, clamped; a band past the tenth is ignored.
    pub fn set_eq_band(&mut self, band: usize, gain_db: i64)
        requires
            old(self).wf(),
        ensures
            final(self).wf(),
            final(self).settings() == (Settings {
                eq: final(self).settings().eq,
                ..old(self).settings()
            }),
            final(self).settings().eq.bands() == (if band < backend::EQ_BANDS {
                old(self).settings().eq.bands().update(band as int, backend::band_clamped(gain_db))
            } else {
                old(self).settings().eq.bands()
            }),
            final(self).curve_pushed(old(self)),
    {
        self.set.eq = self.set.eq.with_band(band, gain_db);
        self.backend.set_eq(&self.set.eq);
        assert(B::step(old(self).audio(), Call::SetEq(self.set.eq), self.backend));
        self.apply_output_volume();
    }

    /// One band's gain; zero past the tenth.
    pub fn get_eq_band(&self, band: usize) -> (r: i64)
        ensures
            r == (if band < backend::EQ_BANDS {
                self.settings().eq.bands()[band as int]
            } else {
                0
            }),
            -backend::EQ_BAND_DB_LIMIT <= r <= backend::EQ_BAND_DB_LIMIT,
    {
        self.set.eq.band(band)
    }

    /// Applies band gains in one call: entries past the tenth are ignored, and
    /// bands a short list does not cover stay.
    pub fn apply_eq_bands(&mut self, bands: &[i64])
        requires
            old(self).wf(),
        ensures
            final(self).wf(),
            final(self).settings() == (Settings {
                eq: final(self).settings().eq,
                ..old(self).settings()
            }),
            final(self).settings().eq.bands() == backend::merged_bands(
                old(self).settings().eq.bands(),
                bands@,
            ),
            final(self).curve_pushed(old(self)),
    {
        self.set.eq = self.set.eq.with_bands(bands);
        self.backend.set_eq(&self.set.eq);
        assert(B::step(old(self).audio(), Call::SetEq(self.set.eq), self.backend));
        self.apply_output_volume();
    }

    /// Sets the pre-amp multiplier, clamped to its range.
    pub fn set_preamp(&mut self, multiplier: i64)
        requires
            old(self).wf(),
        ensures
            final(self).wf(),
            final(self).settings() == (Settings {
                preamp: backend::clamped(multiplier as int, PREAMP_MIN as int, PREAMP_MAX as int) as u64,
                ..old(self).settings()
            }),
            final(self).level_in_step(),
            B::step(
                old(self).audio(),
                Call::SetOutputGain(final(self).settings().gain()),
                final(self).audio(),
            ),
            final(self).same_path(old(self)),
            final(self).visual() == old(self).visual(),
    {
        self.set.preamp = clamp_level(multiplier, PREAMP_MIN, PREAMP_MAX);
        self.apply_output_volume();
    }

    /// The backend's answer to one poll: the next event, if any. Either one ends
    /// playback.
    pub fn poll_bus(&mut self) -> (r: Option<BusEvent>)
        requires
            old(self).wf(),
        ensures
            final(self).wf(),
            B::step(old(self).audio(), Call::PollEvent(r), final(self).audio()),
            final(self).settings() == (match r {
                Some(_) => Settings { state: PlayerState::Stopped, ..old(self).settings() },
                None => old(self).settings(),
            }),
            final(self).visual() == old(self).visual(),
            final(self).audio().level() == old(self).audio().level(),
            final(self).audio().installed() == old(self).audio().installed(),
            final(self).audio().deferred() == old(self).audio().deferred(),
            final(self).audio().curve() == old(self).audio().curve(),
            r is Some ==> final(self).audio().backlog() < old(self).audio().backlog(),
    {
        match self.backend.poll_event() {
            None => None,
            Some(event) => {
                self.set.state = PlayerState::Stopped;
                Some(event)
            },
        }
    }

    /// The magnitudes of `num_bands` display bars. The first sixteen bars stand
    /// at fixed frequencies; `high` gives, in thousandths of a hertz, the
    /// frequency of each bar past them. All zero until a frame has arrived.
    pub fn get_spectrum_display_bands(&self, num_bands: u32, high: &Vec<u64>) -> (r: Vec<u64>)
        requires
            num_bands <= 16 + high@.len(),
        ensures
            r@ == display_bands(self.visual(), num_bands as nat, high@),
    {
        let spectrum = self.analysis.magnitudes();
        let ready = self.analysis.has_magnitudes() && spectrum.len() > 0;
        let mut out: Vec<u64> = Vec::new();
        let mut i: u32 = 0;
        while i < num_bands
            invariant
                i <= num_bands,
                num_bands <= 16 + high@.len(),
                spectrum@ == self.visual().bars(),
                ready == (self.visual().has_frame() && spectrum@.len() > 0),
                out@.len() == i,
                forall|k: int|
                    0 <= k < i ==> #[trigger] out@[k] == display_bands(
                        self.visual(),
                        num_bands as nat,
                        high@,
                    )[k],
            decreases num_bands - i,
        {
            if ready {
                let mhz: u64 = if i < 16 {
                    bar_frequency(i)
                } else {
                    high[(i - 16) as usize]
                };
                let at: usize = band_index(mhz, spectrum.len());
                out.push(spectrum[at]);
            } else {
                out.push(0);
            }
            i += 1;
        }
        assert(out@ =~= display_bands(self.visual(), num_bands as nat, high@));
        out
    }

    /// Takes in what a backend's tap gathered.
    pub fn absorb(&mut self, tap: &mut AnalysisTap)
        ensures
            final(self).settings() == old(self).settings(),
            final(self).audio() == old(self).audio(),
            final(self).visual().scope() == analysis::last_n(
                old(self).visual().scope() + old(tap).samples(),
                old(self).visual().scope_capacity() as int,
            ),
            final(self).visual().bars() == analysis::eased_through(
                old(self).visual().bars(),
                old(tap).magnitude_frames(),
            ),
            final(self).visual().has_frame() == (old(self).visual().has_frame() || old(tap).magnitude_frames().len() > 0),
            final(self).visual().scope_capacity() == old(self).visual().scope_capacity(),
            final(tap).samples() == Seq::<i64>::empty(),
            final(tap).magnitude_frames() == Seq::<Seq<u64>>::empty(),
            final(tap).sample_capacity() == old(tap).sample_capacity(),
    {
        self.analysis.absorb(tap);
    }

    /// `count` samples for the scope; silence where fewer arrived.
    pub fn get_waveform_samples(&self, count: usize) -> (r: Vec<i64>)
        ensures
            r@ == analysis::scope_shown(self.visual().scope(), count as nat),
    {
        self.analysis.waveform(count)
    }

    /// What the plasma visualizer draws its next frame from: where the track is,
    /// whether it plays, and the last samples. The position is the backend's,
    /// zero when nothing is loaded.
    pub fn render_granite(&self) -> (r: GraniteInput)
        ensures
            r.active == (self.settings().state == PlayerState::Playing),
            r.samples@ == analysis::scope_shown(self.visual().scope(), GRANITE_SAMPLES as nat),
            r.samples@.len() == 1024,
            exists|at: Option<u64>| #[trigger]
                self.may_be_at(at) && r.position == (match at {
                    Some(pos) => pos,
                    None => 0,
                }),
    {
        let position: u64 = match self.position() {
            Some(pos) => pos,
            None => 0,
        };
        GraniteInput {
            position,
            active: self.set.state == PlayerState::Playing,
            samples: self.get_waveform_samples(GRANITE_SAMPLES),
        }
    }

    /// Whether spectrum data has actually arrived from the backend.
    pub fn has_spectrum_data(&self) -> (r: bool)
        ensures
            r == (self.settings().caps.spectrum && self.visual().has_frame()),
    {
        self.set.caps.spectrum && self.analysis.has_magnitudes()
    }
}

/// How many samples a frame of the plasma visualizer is drawn from.
pub const GRANITE_SAMPLES: usize = 1024;

/// What the plasma visualizer draws a frame from.
pub struct GraniteInput {
    /// In nanoseconds.
    pub position: u64,
    pub active: bool,
    pub samples: Vec<i64>,
}

/// A reshape that the backend put off is in force once a track is loaded, and
/// nothing waits any more.
pub proof fn law_deferred_shape_comes_with_the_load<B: AudioBackend>(
    asked: Player<B>,
    before: Player<B>,
    loaded: Player<B>,
)
    requires
        before.wf(),
        asked.wf(),
        asked.normalization_pushed(&before),
        asked.settings().reload_pending,
        loaded.load_done(&asked),
    ensures
        asked.audio().installed() == before.audio().installed(),
        asked.audio().deferred() == Some(asked.settings().wanted()),
        backend::serves(loaded.audio().installed(), loaded.settings().wanted()),
        loaded.audio().deferred() is None,
        !loaded.settings().reload_pending,
{
}

/// A gain primed for a track is that track's fallback, and only that track's:
/// with nothing primed since, the next load is back at the configured one.
pub proof fn law_primed_gain_lasts_one_load<B: AudioBackend>(
    primed: Player<B>,
    first: Player<B>,
    second: Player<B>,
    db: i64,
)
    requires
        primed.settings().db_gain == Some(db),
        primed.settings().caps.normalization,
        first.load_done(&primed),
        second.load_done(&first),
    ensures
        first.audio().installed().fallback_db == db,
        second.audio().installed().fallback_db == primed.settings().rg.fallback_db,
{
}

/// Two toggles of pause that the audio path followed give back the state there was
/// before them.
pub proof fn law_two_toggles_are_none<B: AudioBackend>(
    before: Player<B>,
    once: Player<B>,
    twice: Player<B>,
)
    requires
        once.toggle_settled(&before, Ok(())),
        twice.toggle_settled(&once, Ok(())),
    ensures
        twice.settings().state == before.settings().state,
        twice.settings() == before.settings().unfaded(),
{
}

/// What was captured before a stop, or before a load, never comes back: where a tap
/// was taken in first, what a later taking in brings is what was pushed to it since,
/// and nothing else.
pub proof fn law_nothing_captured_before_a_rest_comes_back<B: AudioBackend>(
    taken: Player<B>,
    rested: Player<B>,
    pushes: Seq<Seq<i64>>,
    n: int,
)
    requires
        rested.stop_settled(&taken, Ok(())) || rested.load_done(&taken),
        n == rested.visual().scope_capacity(),
    ensures
        analysis::last_n(rested.visual().scope() + analysis::gathered(pushes, n), n)
            == analysis::written(Seq::empty(), pushes, n),
{
    analysis::law_a_tap_writes_what_its_analysis_reads(Seq::empty(), pushes, n);
}

/// One call that bears on the output level.
pub enum Knob {
    Volume(i64),
    Preamp(i64),
    /// One band of the equalizer, or several.
    Equalizer,
    /// A fade that begins: when, and how long it is to take.
    FadeBegin(u64, u64),
    /// A fade that moves on, and when.
    FadePoll(u64),
    FadeCancel,
}

/// Whether a call may leave `after` of the player it found.
pub open spec fn turned<B: AudioBackend>(after: Player<B>, before: Player<B>, knob: Knob) -> bool {
    &&& after.wf()
    &&& match knob {
        Knob::Volume(v) => {
            &&& after.settings() == (Settings {
                volume: backend::clamped(v as int, 0, UNITY_PPB as int) as u64,
                ..before.settings()
            })
            &&& after.level_in_step()
        },
        Knob::Preamp(m) => {
            &&& after.settings() == (Settings {
                preamp: backend::clamped(m as int, PREAMP_MIN as int, PREAMP_MAX as int) as u64,
                ..before.settings()
            })
            &&& after.level_in_step()
        },
        Knob::Equalizer => {
            &&& after.settings() == (Settings { eq: after.settings().eq, ..before.settings() })
            &&& after.curve_pushed(&before)
        },
        Knob::FadeBegin(now, duration) => {
            &&& after.settings() == (if before.settings().state == PlayerState::Playing {
                Settings {
                    fadeout: Some(Fadeout::begun(before.settings().fadeout, now, duration)),
                    ..before.settings()
                }
            } else {
                before.settings()
            })
            &&& after.audio() == before.audio()
        },
        Knob::FadePoll(now) => exists|finished: bool| #[trigger]
            after.fade_polled(&before, now, finished),
        Knob::FadeCancel => {
            &&& after.settings() == before.settings().unfaded()
            &&& after.level_restored(&before)
        },
    }
}

/// The volume once calls were made, where it was `from` before them.
pub open spec fn last_volume(from: int, knobs: Seq<Knob>) -> int
    decreases knobs.len(),
{
    if knobs.len() == 0 {
        from
    } else {
        match knobs.last() {
            Knob::Volume(v) => backend::clamped(v as int, 0, UNITY_PPB as int),
            _ => last_volume(from, knobs.drop_last()),
        }
    }
}

/// The pre-amp once calls were made, where it was `from` before them.
pub open spec fn last_preamp(from: int, knobs: Seq<Knob>) -> int
    decreases knobs.len(),
{
    if knobs.len() == 0 {
        from
    } else {
        match knobs.last() {
            Knob::Preamp(m) => backend::clamped(m as int, PREAMP_MIN as int, PREAMP_MAX as int),
            _ => last_preamp(from, knobs.drop_last()),
        }
    }
}

/// Over any series of turns, with the equalizer set and fades begun, moved on and
/// given up in between, the output level is the product of volume and pre-amp as
/// they were last set and of the fade, which is unity where no fade runs: the order
/// does not matter, and nothing else moves it.
pub proof fn law_the_level_is_the_product_of_what_was_last_set<B: AudioBackend>(
    states: Seq<Player<B>>,
    knobs: Seq<Knob>,
)
    requires
        states.len() == knobs.len() + 1,
        states[0].wf(),
        states[0].level_in_step(),
        forall|i: int|
            0 <= i < knobs.len() ==> turned(states[i + 1], states[i], #[trigger] knobs[i]),
    ensures
        states.last().audio().level().ppb == composed(
            last_volume(states[0].settings().volume as int, knobs),
            last_preamp(states[0].settings().preamp as int, knobs),
            states.last().settings().fade_factor as int,
        ),
        states.last().settings().volume == last_volume(states[0].settings().volume as int, knobs),
        states.last().settings().preamp == last_preamp(states[0].settings().preamp as int, knobs),
        states.last().settings().fadeout is None ==> states.last().settings().fade_factor
            == UNITY_PPB,
    decreases knobs.len(),
{
    if knobs.len() > 0 {
        let n = knobs.len() - 1;
        let fewer = knobs.drop_last();
        assert forall|i: int| 0 <= i < fewer.len() implies turned(
            states.drop_last()[i + 1],
            states.drop_last()[i],
            #[trigger] fewer[i],
        ) by {
            assert(fewer[i] == knobs[i]);
        }
        law_the_level_is_the_product_of_what_was_last_set(states.drop_last(), fewer);
        assert(knobs[n] == knobs.last());
        assert(turned(states[n + 1], states[n], knobs[n]));
        assert(states.drop_last().last() == states[n]);
    }
}

/// A display bar depends on nothing but its own frequency: two bars that stand at
/// the same one read the same, wherever they stand and however many others there
/// are.
pub proof fn law_a_bar_reads_its_own_frequency(
    a: Analysis,
    n: nat,
    high: Seq<u64>,
    i: int,
    m: nat,
    other: Seq<u64>,
    j: int,
)
    requires
        0 <= i < n <= 16 + high.len(),
        0 <= j < m <= 16 + other.len(),
        bar_at(high, i) == bar_at(other, j),
    ensures
        display_bands(a, n, high)[i] == display_bands(a, m, other)[j],
{
}

/// Full scale of the spectrum, in thousandths of a hertz.
pub const NYQUIST_MHZ: u64 = 22_050_000;

/// Where the first sixteen display bars stand, in thousandths of a hertz.
pub open spec fn bar_table() -> Seq<u64> {
    seq![
        86_000u64,
        172_000,
        344_000,
        430_000,
        602_000,
        775_000,
        947_000,
        1_119_000,
        1_292_000,
        1_464_000,
        1_722_000,
        1_981_000,
        2_239_000,
        2_670_000,
        3_272_000,
        3_790_000,
    ]
}

/// The spectrum entry that covers a frequency.
pub open spec fn band_at(mhz: u64, len: nat) -> int {
    let at = (mhz * len) / (NYQUIST_MHZ as int);
    if at < len - 1 {
        at
    } else {
        len - 1
    }
}

/// Where a display bar stands, in thousandths of a hertz.
pub open spec fn bar_at(high: Seq<u64>, i: int) -> u64 {
    if i < 16 {
        bar_table()[i]
    } else {
        high[i - 16]
    }
}

/// The display bars of a spectrum.
pub open spec fn display_bands(a: Analysis, n: nat, high: Seq<u64>) -> Seq<u64> {
    Seq::new(
        n,
        |i: int|
            if a.has_frame() && a.bars().len() > 0 {
                a.bars()[band_at(bar_at(high, i), a.bars().len())]
            } else {
                0
            },
    )
}

/// Where one of the first sixteen display bars stands.
fn bar_frequency(i: u32) -> (r: u64)
    requires
        i < 16,
    ensures
        r == bar_table()[i as int],
{
    let table: [u64; 16] = [
        86_000,
        172_000,
        344_000,
        430_000,
        602_000,
        775_000,
        947_000,
        1_119_000,
        1_292_000,
        1_464_000,
        1_722_000,
        1_981_000,
        2_239_000,
        2_670_000,
        3_272_000,
        3_790_000,
    ];
    assert(table@ =~= bar_table());
    table[i as usize]
}

/// The spectrum entry that covers a frequency.
fn band_index(mhz: u64, len: usize) -> (r: usize)
    requires
        len > 0,
    ensures
        r == band_at(mhz, len as nat),
        r < len,
{
    assert(0 <= mhz * len <= 0xffff_ffff_ffff_ffff * 0xffff_ffff_ffff_ffff) by (nonlinear_arith)
        requires
            0 <= mhz <= 0xffff_ffff_ffff_ffff,
            0 <= len <= 0xffff_ffff_ffff_ffff,
    ;
    let at: u128 = (mhz as u128) * (len as u128) / (NYQUIST_MHZ as u128);
    if at < (len - 1) as u128 {
        at as usize
    } else {
        len - 1
    }
}

/// Where a toggle of pause leads.
pub open spec fn toggled(state: PlayerState) -> PlayerState {
    match state {
        PlayerState::Playing => PlayerState::Paused,
        PlayerState::Paused => PlayerState::Playing,
        PlayerState::Stopped => PlayerState::Stopped,
    }
}

/// A time in whole microseconds, zero when unknown.
pub open spec fn usecs_of(t: Option<u64>) -> int {
    match t {
        Some(ns) => ns as int / 1000,
        None => 0,
    }
}

/// A time in whole microseconds, zero when unknown.
pub fn usecs(t: Option<u64>) -> (r: i64)
    ensures
        r == usecs_of(t),
        0 <= r <= u64::MAX / 1000,
{
    match t {
        Some(ns) => (ns / 1000) as i64,
        None => 0,
    }
}

/// Moves a level into a range.
fn clamp_level(v: i64, lo: u64, hi: u64) -> (r: u64)
    requires
        lo <= hi <= i64::MAX,
    ensures
        r == backend::clamped(v as int, lo as int, hi as int),
{
    if v < lo as i64 {
        lo
    } else if v > hi as i64 {
        hi
    } else {
        v as u64
    }
}

/// At unity throughout, the level is unity.
proof fn lemma_unity()
    ensures
        composed(UNITY_PPB as int, UNITY_PPB as int, UNITY_PPB as int) == UNITY_PPB,
{
    assert((1_000_000_000int * 1_000_000_000 * 1_000_000_000) / 1_000_000_000_000_000_000
        == 1_000_000_000);
}

/// Volume, pre-amp and fade, multiplied.
fn compose(volume: u64, preamp: u64, fade: u64) -> (r: i64)
    requires
        volume <= UNITY_PPB,
        preamp <= PREAMP_MAX,
        fade <= UNITY_PPB,
    ensures
        r == composed(volume as int, preamp as int, fade as int),
        0 <= r,
{
    assert(0 <= volume * preamp <= 1_500_000_000_000_000_000) by (nonlinear_arith)
        requires
            volume <= 1_000_000_000,
            preamp <= 1_500_000_000,
    ;
    let p: u128 = (volume as u128) * (preamp as u128);
    assert(0 <= p * fade <= 1_500_000_000_000_000_000_000_000_000) by (nonlinear_arith)
        requires
            p <= 1_500_000_000_000_000_000,
            fade <= 1_000_000_000,
    ;
    let q: u128 = p * (fade as u128);
    (q / 1_000_000_000_000_000_000) as i64
}

/// The spectrum entry that a frequency reads is the one whose band covers it: the entries
/// share the range up to 22 050 Hz evenly, low frequencies first, and from there on the
/// last one is read.
pub proof fn law_a_frequency_reads_the_entry_that_covers_it(mhz: u64, len: nat)
    requires
        0 < len,
    ensures
        ({
            let i = band_at(mhz, len);
            &&& 0 <= i < len
            &&& mhz < 22_050_000 ==> i * 22_050_000 <= mhz * len < (i + 1) * 22_050_000
            &&& mhz >= 22_050_000 ==> i == len - 1
        }),
{
    let x = mhz * len;
    let at = x / 22_050_000;
    assert(0 <= x) by (nonlinear_arith)
        requires
            x == mhz * len,
            0 <= mhz,
            0 <= len,
    ;
    if mhz < 22_050_000 {
        assert(x < 22_050_000 * len) by (nonlinear_arith)
            requires
                x == mhz * len,
                mhz < 22_050_000,
                0 < len,
        ;
        assert(at <= len - 1);
    } else {
        assert(x >= 22_050_000 * len) by (nonlinear_arith)
            requires
                x == mhz * len,
                mhz >= 22_050_000,
                0 < len,
        ;
        assert(at >= len);
    }
}

/// A higher frequency never reads a lower entry, and the lowest reads the first.
pub proof fn law_entries_rise_with_frequency(low: u64, high: u64, len: nat)
    requires
        0 < len,
        low <= high,
    ensures
        band_at(low, len) <= band_at(high, len),
        band_at(0, len) == 0,
{
    law_a_frequency_reads_the_entry_that_covers_it(low, len);
    law_a_frequency_reads_the_entry_that_covers_it(high, len);
    law_a_frequency_reads_the_entry_that_covers_it(0, len);
    let x = low * len;
    let y = high * len;
    assert(x <= y) by (nonlinear_arith)
        requires
            x == low * len,
            y == high * len,
            low <= high,
            0 < len,
    ;
    let i = band_at(0, len);
    assert(0 * len == 0);
    assert(i * 22_050_000 <= 0);
}

/// A display bar shows the spectrum entry that covers its frequency, and nothing until a
/// frame has arrived; there are as many bars as were asked for.
pub proof fn law_a_bar_shows_what_sounds_at_its_frequency(
    a: Analysis,
    n: nat,
    high: Seq<u64>,
    k: int,
)
    requires
        0 <= k < n <= 16 + high.len(),
        bar_at(high, k) < 22_050_000,
    ensures
        display_bands(a, n, high).len() == n,
        !a.has_frame() ==> display_bands(a, n, high)[k] == 0,
        a.has_frame() && a.bars().len() > 0 ==> exists|i: int|
            {
                &&& 0 <= i < a.bars().len()
                &&& display_bands(a, n, high)[k] == #[trigger] a.bars()[i]
                &&& i * 22_050_000 <= bar_at(high, k) * a.bars().len() < (i + 1) * 22_050_000
            },
{
    if a.has_frame() && a.bars().len() > 0 {
        law_a_frequency_reads_the_entry_that_covers_it(bar_at(high, k), a.bars().len());
        let i = band_at(bar_at(high, k), a.bars().len());
        assert(display_bands(a, n, high)[k] == a.bars()[i]);
    }
}

/// The first sixteen bars stand at fixed frequencies, each above the one before, and the
/// others where they are put.
pub proof fn law_the_bars_stand_at_their_frequencies(high: Seq<u64>, i: int)
    requires
        0 <= i < 16 + high.len(),
    ensures
        i < 16 ==> bar_at(high, i) == 1000 * seq![
            86int,
            172,
            344,
            430,
            602,
            775,
            947,
            1119,
            1292,
            1464,
            1722,
            1981,
            2239,
            2670,
            3272,
            3790,
        ][i],
        0 < i < 16 ==> bar_at(high, i - 1) < bar_at(high, i),
        i >= 16 ==> bar_at(high, i) == high[i - 16],
{
}

/// The output level is the product of its three factors, rounded down: silence where any
/// of them is none, the volume itself where pre-amp and fade are unity, and never less
/// for a factor that is more.
pub proof fn law_the_level_is_a_product(volume: int, preamp: int, fade: int, more: int)
    requires
        0 <= volume <= more,
        0 <= preamp,
        0 <= fade,
    ensures
        ({
            let level = composed(volume, preamp, fade);
            let whole = 1_000_000_000_000_000_000int;
            &&& level * whole <= volume * preamp * fade < (level + 1) * whole
            &&& volume == 0 || preamp == 0 || fade == 0 ==> level == 0
            &&& preamp == 1_000_000_000 && fade == 1_000_000_000 ==> level == volume
            &&& level <= composed(more, preamp, fade)
        }),
{
    let x = volume * preamp * fade;
    let y = more * preamp * fade;
    assert(0 <= x <= y) by (nonlinear_arith)
        requires
            x == volume * preamp * fade,
            y == more * preamp * fade,
            0 <= volume <= more,
            0 <= preamp,
            0 <= fade,
    ;
    if volume == 0 || preamp == 0 || fade == 0 {
        assert(x == 0) by (nonlinear_arith)
            requires
                x == volume * preamp * fade,
                volume == 0 || preamp == 0 || fade == 0,
        ;
    }
    if preamp == 1_000_000_000 && fade == 1_000_000_000 {
        assert(x == volume * 1_000_000_000_000_000_000) by (nonlinear_arith)
            requires
                x == volume * preamp * fade,
                preamp == 1_000_000_000,
                fade == 1_000_000_000,
        ;
    }
}

/// A fade falls evenly from where it began to silence over its time: what it has lost is
/// the part of its time that has run, and one from full level is over when its time is.
pub proof fn law_a_fade_falls_evenly(fade: Fadeout, now: u64)
    requires
        fade.from <= 1_000_000_000,
        now >= fade.started,
    ensures
        fade.over(now) == ((now - fade.started) * 1_000_000_000 >= fade.from * fade.duration),
        fade.from == 1_000_000_000 ==> fade.over(now) == (now - fade.started >= fade.duration),
        fade.duration > 0 && !fade.over(now) ==> {
            let lost = fade.from - fade.level(now);
            &&& 0 <= lost < fade.from
            &&& lost * fade.duration <= (now - fade.started) * 1_000_000_000 < (lost + 1)
                * fade.duration
        },
        now == fade.started && fade.duration > 0 && fade.from > 0 ==> !fade.over(now)
            && fade.level(now) == fade.from,
{
    let e = now - fade.started;
    let x = e * 1_000_000_000;
    let d = fade.duration as int;
    let f = fade.from as int;
    assert(fade.elapsed(now) == e);
    if f == 1_000_000_000 {
        assert(f * d == 1_000_000_000 * d);
    }
    if d > 0 && !fade.over(now) {
        vstd::arithmetic::div_mod::lemma_fundamental_div_mod(x, d);
        vstd::arithmetic::div_mod::lemma_mod_bound(x, d);
        let q = x / d;
        assert(q * d <= x < (q + 1) * d) by (nonlinear_arith)
            requires
                x == d * q + x % d,
                0 <= x % d < d,
        ;
        assert(0 <= q < f) by (nonlinear_arith)
            requires
                q == x / d,
                0 <= x < f * d,
                d > 0,
        ;
    }
    if e == 0 && d > 0 && f > 0 {
        assert(f * d > 0) by (nonlinear_arith)
            requires
                f > 0,
                d > 0,
        ;
        assert(0int / d == 0) by (nonlinear_arith)
            requires
                d > 0,
        ;
    }
}

/// A fade begins at full level; asked for again it goes on from where it has come to,
/// within a part of it, and never higher.
pub proof fn law_a_fade_goes_on_from_its_level(fade: Fadeout, now: u64, duration: u64)
    requires
        fade.from <= 1_000_000_000,
        now >= fade.started,
        fade.duration > 0,
    ensures
        Fadeout::begun(None, now, duration) == (Fadeout {
            started: now,
            duration,
            from: 1_000_000_000,
        }),
        ({
            let again = Fadeout::begun(Some(fade), now, duration);
            &&& again.started == now
            &&& again.duration == duration
            &&& fade.over(now) ==> again.from == 0
            &&& !fade.over(now) ==> fade.level(now) - 1 <= again.from <= fade.level(now)
        }),
{
    let e = now - fade.started;
    let x = e * 1_000_000_000;
    let d = fade.duration as int;
    let f = fade.from as int;
    if !fade.over(now) {
        law_a_fade_falls_evenly(fade, now);
        let q = x / d;
        let p = (x + d - 1) / d;
        vstd::arithmetic::div_mod::lemma_div_is_ordered(x, x + d - 1, d);
        vstd::arithmetic::div_mod::lemma_div_is_ordered(x + d - 1, x + d, d);
        vstd::arithmetic::div_mod::lemma_div_plus_one(x, d);
        assert(q <= p <= q + 1);
    }
}

/// A toggle of pause goes from playing to paused and back, and leaves a player that is
/// stopped alone.
pub proof fn law_a_toggle_pauses_and_resumes<B: AudioBackend>(after: Player<B>, before: Player<B>)
    requires
        after.toggle_settled(&before, Ok(())),
    ensures
        before.settings().state == PlayerState::Playing ==> after.settings().state
            == PlayerState::Paused && after.audio().transport() == PlayerState::Paused,
        before.settings().state == PlayerState::Paused ==> after.settings().state
            == PlayerState::Playing && after.audio().transport() == PlayerState::Playing,
        before.settings().state == PlayerState::Stopped ==> after.settings().state
            == PlayerState::Stopped,
        after.settings().fadeout is None,
        after.settings().volume == before.settings().volume,
{
}

/// A load that went well leaves the player stopped, at its own level with no fade, with
/// the scope empty and the bars as they were, and keeps volume, pre-amp, curve and an
/// armed stop; the source it opened is the one that was named.
pub proof fn law_a_load_opens_what_was_named<B: AudioBackend>(
    after: Player<B>,
    before: Player<B>,
    uri: Seq<char>,
)
    requires
        after.load_settled(&before, uri, Ok(())),
    ensures
        after.settings().state == PlayerState::Stopped,
        after.settings().fadeout is None,
        after.settings().fade_factor == 1_000_000_000,
        after.settings().volume == before.settings().volume,
        after.settings().preamp == before.settings().preamp,
        after.settings().eq == before.settings().eq,
        after.settings().stop_after_current == before.settings().stop_after_current,
        !after.settings().reload_pending,
        after.visual().scope().len() == 0,
        after.visual().bars() == before.visual().bars(),
        exists|shaped: B, source: MediaSource, opened: B|
            {
                &&& #[trigger] B::step(shaped, Call::Load(source, Ok(())), opened)
                &&& source matches MediaSource::Uri(u) ==> u@ == uri
                &&& source is CdTrack ==> crate::disc::is_cdda(uri)
            },
{
    let applied = choose|applied: Applied| #[trigger]
        after.load_calls(&before, uri, applied, Ok(()));
    assert(after.load_calls(&before, uri, applied, Ok(())));
}

/// A play that the audio path followed leaves the player playing at its own level; one
/// that it refused leaves the state. Either way a fade is given up and the rest stays.
pub proof fn law_a_play_plays_at_the_full_level<B: AudioBackend>(
    after: Player<B>,
    before: Player<B>,
    r: Result<(), BackendError>,
)
    requires
        after.play_settled(&before, r),
    ensures
        r is Ok ==> after.settings().state == PlayerState::Playing && after.audio().transport()
            == PlayerState::Playing,
        r is Err ==> after.settings().state == before.settings().state,
        after.settings().fadeout is None,
        after.settings().fade_factor == 1_000_000_000,
        after.settings().volume == before.settings().volume,
        after.settings().preamp == before.settings().preamp,
        after.settings().stop_after_current == before.settings().stop_after_current,
        after.settings().db_gain == before.settings().db_gain,
{
}

/// A fade that reaches its end stops the player and gives its level back, and says so
/// once; before that it only lowers the level.
pub proof fn law_a_fade_ends_in_a_stop<B: AudioBackend>(
    after: Player<B>,
    before: Player<B>,
    now: u64,
    finished: bool,
)
    requires
        after.fade_polled(&before, now, finished),
    ensures
        finished ==> {
            &&& before.settings().fadeout matches Some(fade) && fade.over(now)
            &&& before.settings().state == PlayerState::Playing
            &&& after.settings().state == PlayerState::Stopped
            &&& after.settings().fadeout is None
            &&& after.settings().fade_factor == 1_000_000_000
        },
        !finished ==> after.settings().state == before.settings().state,
        after.settings().volume == before.settings().volume,
        after.settings().preamp == before.settings().preamp,
        (before.settings().fadeout matches Some(fade) && before.settings().state
            == PlayerState::Playing && !fade.over(now)) ==> {
            &&& after.settings().fadeout == before.settings().fadeout
            &&& after.settings().fade_factor == before.settings().fadeout.unwrap().level(now)
            &&& after.level_in_step()
        },
{
}

/// A time in microseconds is that time in whole ones, and none where it is not known.
pub proof fn law_microseconds_are_a_thousandth(t: Option<u64>)
    ensures
        t is None ==> usecs_of(t) == 0,
        t matches Some(ns) ==> 1000 * usecs_of(t) <= ns < 1000 * (usecs_of(t) + 1),
{
}

/// What the settings ask of the normalization is the configured chain, with the gain that
/// was taken up for this track in place of the configured one.
pub proof fn law_the_normalization_asked_for_is_the_configured_one(s: Settings)
    ensures
        s.wanted().enabled == s.rg.enabled,
        s.wanted().clip_protection == s.rg.clip_protection,
        s.wanted().album_mode == s.album_mode,
        s.track_fallback_db matches Some(db) ==> s.wanted().fallback_db == db,
        s.track_fallback_db is None ==> s.wanted().fallback_db == s.rg.fallback_db,
{
}

/// A faked position is what is read; otherwise the position is the one that the backend
/// reports, and the length always is.
pub proof fn law_a_faked_position_is_read<B: AudioBackend>(
    p: Player<B>,
    at: Option<u64>,
    total: Option<u64>,
    now: Timeline,
)
    requires
        p.may_be_at(at),
        p.may_last(total),
        p.may_read(now),
    ensures
        p.settings().fake_position matches Some(pos) ==> at == Some(pos) && now.position == Some(pos),
        p.settings().fake_position is None ==> exists|said: Timeline|
            #[trigger] p.may_report(said) && at == said.position,
        p.settings().fake_position is None ==> p.may_report(now),
        exists|said: Timeline| #[trigger] p.may_report(said) && total == said.duration,
        exists|said: Timeline| #[trigger] p.may_report(said) && now.duration == said.duration,
{
    let said = choose|said: Timeline| #[trigger]
        p.may_report(said) && now == (Timeline {
            position: match p.settings().fake_position {
                Some(pos) => Some(pos),
                None => said.position,
            },
            duration: said.duration,
        });
    assert(p.may_report(said));
    if p.settings().fake_position is None {
        assert(now == said);
    }
}

/// The pre-amp goes from a half to one and a half times the level, and holds what it is set to
/// in between.
pub proof fn law_the_preamp_stays_in_its_range<B: AudioBackend>(
    after: Player<B>,
    before: Player<B>,
    m: i64,
)
    requires
        turned(after, before, Knob::Preamp(m)),
    ensures
        1_000_000_000 <= 2 * after.settings().preamp <= 3_000_000_000,
        500_000_000 <= m <= 1_500_000_000 ==> after.settings().preamp == m,
        m < 500_000_000 ==> after.settings().preamp == 500_000_000,
        m > 1_500_000_000 ==> after.settings().preamp == 1_500_000_000,
        after.settings().volume == before.settings().volume,
        after.settings().state == before.settings().state,
{
}

} // verus!
