//! The decisions of the AVFoundation adapter: what is scheduled and whether
//! its end counts, where the transport stands, and which gain the one gain
//! stage carries.

use crate::engine::analysis::latest;
use crate::engine::backend::{
    Amplitude, Applied, BackendError, Capabilities, EqCurve, MediaSource, Normalization, Timeline,
};
use crate::engine::gst::GuardStep;
use crate::engine::{BusEvent, PlayerState};
use vstd::prelude::*;

verus! {

/// What a mono connection costs at the mixer, in millionths of a decibel.
pub const MONO_PAN_LAW_DB: i64 = 3_010_300;

/// The least gain that the gain stage takes, in millionths of a decibel.
pub const GAIN_FLOOR_DB: i64 = -96_000_000;

/// The greatest gain that the gain stage takes, in millionths of a decibel.
pub const GAIN_CEILING_DB: i64 = 24_000_000;

/// Magnitudes of one spectrum frame.
pub const SPECTRUM_BANDS: usize = 256;

/// Samples that one spectrum frame is computed from.
pub const SPECTRUM_FFT_SIZE: usize = 512;

/// The least magnitude of a spectrum frame, in millionths of a decibel.
pub const SPECTRUM_FLOOR_DB: i64 = -60_000_000;

/// How an equalizer band filters.
#[derive(Debug, Clone, Copy, PartialEq, Eq, Structural)]
pub enum FilterKind {
    LowShelf,
    Parametric,
    HighShelf,
}

/// The centres of the ten bands, in hertz.
pub open spec fn band_centres() -> Seq<u32> {
    seq![29u32, 59, 119, 237, 474, 947, 1889, 3770, 7523, 15011]
}

/// How a band filters, and its centre: shelves at the two edges.
pub fn band_shape(band: usize) -> (r: (FilterKind, u32))
    requires
        band < 10,
    ensures
        r.0 == (if band == 0 {
            FilterKind::LowShelf
        } else if band == 9 {
            FilterKind::HighShelf
        } else {
            FilterKind::Parametric
        }),
        r.1 == band_centres()[band as int],
{
    let table: [u32; 10] = [29, 59, 119, 237, 474, 947, 1889, 3770, 7523, 15011];
    assert(table@ =~= band_centres());
    let kind = if band == 0 {
        FilterKind::LowShelf
    } else if band == 9 {
        FilterKind::HighShelf
    } else {
        FilterKind::Parametric
    };
    (kind, table[band])
}

/// The file that is loaded.
#[derive(Debug, Clone, Copy, PartialEq, Eq, Structural)]
pub struct LoadedFile {
    pub frames: i64,
    /// In thousandths of a hertz.
    pub sample_rate: u64,
}

/// A segment of the file handed to the player node.
#[derive(Debug, Clone, Copy, PartialEq, Eq, Structural)]
pub struct Segment {
    pub from: i64,
    pub frames: u32,
    /// The completion handler hands this back.
    pub generation: u64,
}

/// What a transport change asks of the audio engine, in order.
#[derive(Debug, Clone, Copy, PartialEq, Eq, Structural)]
pub enum Move {
    StartEngine,
    PlayPlayer,
    PausePlayer,
    PauseEngine,
    StopPlayer,
    StopEngine,
}

/// A frame count as a time in nanoseconds, rounded to the nearest, at most what
/// a time can hold.
pub open spec fn frames_as_time(frames: int, rate: int) -> int {
    let ns = (frames * 1_000_000_000_000 + rate / 2) / rate;
    if ns > u64::MAX {
        u64::MAX as int
    } else {
        ns
    }
}

/// A time in nanoseconds as a frame count, rounded to the nearest, at most what
/// a count can hold.
pub open spec fn time_as_frames(ns: int, rate: int) -> int {
    let frames = (ns * rate + 500_000_000_000) / 1_000_000_000_000;
    if frames > i64::MAX {
        i64::MAX as int
    } else {
        frames
    }
}

/// What the adapter knows of its audio path.
pub struct AvBackend {
    file: Option<LoadedFile>,
    state: PlayerState,
    segment_start_frame: i64,
    last_position_frames: i64,
    gain: Amplitude,
    eq: EqCurve,
    normalization: Normalization,
    mono: bool,
    events: Vec<BusEvent>,
    generation: u64,
    holds_disc_guard: bool,
}

/// Everything an [`AvBackend`] holds.
pub struct AvState {
    pub file: Option<LoadedFile>,
    pub state: PlayerState,
    pub segment_start: int,
    pub last_position: int,
    pub gain: Amplitude,
    pub eq: EqCurve,
    pub normalization: Normalization,
    pub mono: bool,
    pub events: Seq<BusEvent>,
    pub generation: u64,
    pub owns_drive: bool,
}

impl AvState {
    /// A schedule made now from frame `from`: what is handed to the player
    /// node, or an end of track where nothing is left to play.
    pub open spec fn segment(self, from: int) -> Option<Segment> {
        match self.file {
            Some(f) => if f.frames - from <= 0 {
                None
            } else {
                Some(
                    Segment {
                        from: from as i64,
                        frames: if f.frames - from > u32::MAX {
                            u32::MAX
                        } else {
                            (f.frames - from) as u32
                        },
                        generation: self.generation,
                    },
                )
            },
            None => None,
        }
    }

    /// The state once that schedule is made.
    pub open spec fn scheduled(self, from: int) -> AvState {
        if self.segment(from) is Some {
            AvState { segment_start: from, last_position: from, ..self }
        } else {
            AvState { events: self.events.push(BusEvent::Eos), ..self }
        }
    }

    /// The figure that the gain stage carries at an output level, `None` for silence.
    pub open spec fn stage_gain(self, gain_db: Option<i64>) -> int {
        crate::engine::backend::clamped(
            (match gain_db {
                Some(db) => db as int,
                None => GAIN_FLOOR_DB as int,
            }) + (if self.normalization.enabled {
                self.normalization.fallback_db as int
            } else {
                0
            }) + (if self.mono {
                MONO_PAN_LAW_DB as int
            } else {
                0
            }),
            GAIN_FLOOR_DB as int,
            GAIN_CEILING_DB as int,
        )
    }

    /// The state once whatever is scheduled no longer counts.
    pub open spec fn invalidated(self) -> AvState {
        AvState {
            generation: if self.generation == u64::MAX {
                0
            } else {
                (self.generation + 1) as u64
            },
            ..self
        }
    }
}

impl AvBackend {
    pub closed spec fn now(&self) -> AvState {
        AvState {
            file: self.file,
            state: self.state,
            segment_start: self.segment_start_frame as int,
            last_position: self.last_position_frames as int,
            gain: self.gain,
            eq: self.eq,
            normalization: self.normalization,
            mono: self.mono,
            events: self.events@,
            generation: self.generation,
            owns_drive: self.holds_disc_guard,
        }
    }

    /// What every operation keeps: positions are not negative, and a loaded
    /// file has a rate.
    pub open spec fn wf(&self) -> bool {
        &&& self.now().segment_start >= 0
        &&& self.now().last_position >= 0
        &&& self.now().file matches Some(f) ==> f.sample_rate > 0
    }

    /// A path with nothing loaded, connected in stereo, at unity.
    pub fn open_with_output() -> (r: AvBackend)
        ensures
            r.wf(),
            r.now().eq.bands() == crate::engine::backend::flat_bands(),
            r.now() == (AvState {
                file: None,
                eq: r.now().eq,
                state: PlayerState::Stopped,
                segment_start: 0,
                last_position: 0,
                gain: Amplitude { ppb: crate::engine::backend::UNITY_PPB },
                normalization: Normalization {
                    enabled: false,
                    clip_protection: false,
                    fallback_db: 0,
                    album_mode: false,
                },
                mono: false,
                events: Seq::empty(),
                generation: 0,
                owns_drive: false,
            }),
    {
        AvBackend {
            file: None,
            state: PlayerState::Stopped,
            segment_start_frame: 0,
            last_position_frames: 0,
            gain: Amplitude::unity(),
            eq: EqCurve::flat(),
            normalization: Normalization {
                enabled: false,
                clip_protection: false,
                fallback_db: 0,
                album_mode: false,
            },
            mono: false,
            events: Vec::new(),
            generation: 0,
            holds_disc_guard: false,
        }
    }

    pub fn capabilities(&self) -> (r: Capabilities)
        ensures
            r == (Capabilities { eq: true, spectrum: true, normalization: true }),
    {
        Capabilities { eq: true, spectrum: true, normalization: true }
    }

    pub fn state(&self) -> (r: PlayerState)
        ensures
            r == self.now().state,
    {
        self.state
    }

    pub fn output_gain(&self) -> (r: Amplitude)
        ensures
            r == self.now().gain,
    {
        self.gain
    }

    /// Notes the channel count of a new connection: a mono one pays the mixer's
    /// pan law, and the gain stage gives it back.
    pub fn reconnect(&mut self, channels: u32)
        requires
            old(self).wf(),
        ensures
            final(self).wf(),
            final(self).now() == (AvState { mono: channels == 1, ..old(self).now() }),
    {
        self.mono = channels == 1;
    }

    /// The one figure that the gain stage carries: the output level, the
    /// normalization and the pan law together, within the stage's range.
    /// `gain_db` is the output level, `None` for silence.
    pub fn write_gain(&self, gain_db: Option<i64>) -> (r: i64)
        ensures
            r == self.now().stage_gain(gain_db),
    {
        let level: i128 = match gain_db {
            Some(db) => db as i128,
            None => GAIN_FLOOR_DB as i128,
        };
        let normalization: i128 = if self.normalization.enabled {
            self.normalization.fallback_db as i128
        } else {
            0
        };
        let pan: i128 = if self.mono {
            MONO_PAN_LAW_DB as i128
        } else {
            0
        };
        let total: i128 = level + normalization + pan;
        if total < GAIN_FLOOR_DB as i128 {
            GAIN_FLOOR_DB
        } else if total > GAIN_CEILING_DB as i128 {
            GAIN_CEILING_DB
        } else {
            total as i64
        }
    }

    /// Schedules from a frame to the end of the file. Nothing left to play is
    /// reported the way a finished track is.
    pub fn schedule_from(&mut self, from: i64) -> (r: Result<Option<Segment>, BackendError>)
        requires
            old(self).wf(),
            from >= 0,
        ensures
            final(self).wf(),
            match r {
                Ok(segment) => {
                    &&& old(self).now().file is Some
                    &&& segment == old(self).now().segment(from as int)
                    &&& final(self).now() == old(self).now().scheduled(from as int)
                },
                Err(e) => {
                    &&& old(self).now().file is None
                    &&& e.message@ == "nothing loaded to schedule"@
                    &&& final(self).now() == old(self).now()
                },
            },
    {
        let loaded = match self.file {
            None => return Err(BackendError { message: "nothing loaded to schedule".to_owned() }),
            Some(f) => f,
        };
        if loaded.frames <= from {
            self.events.push(BusEvent::Eos);
            return Ok(None);
        }
        let remaining: i64 = loaded.frames - from;
        let frames: u32 = if remaining > u32::MAX as i64 {
            u32::MAX
        } else {
            remaining as u32
        };
        self.segment_start_frame = from;
        self.last_position_frames = from;
        Ok(Some(Segment { from, frames, generation: self.generation }))
    }

    /// Makes whatever is scheduled stop counting as the end of the track.
    pub fn invalidate_schedule(&mut self)
        requires
            old(self).wf(),
        ensures
            final(self).wf(),
            final(self).now() == old(self).now().invalidated(),
            final(self).now().generation != old(self).now().generation,
    {
        self.generation = if self.generation == u64::MAX {
            0
        } else {
            self.generation + 1
        };
    }

    /// A completion handler fired. Only a schedule that is still current can
    /// have reached its end.
    pub fn segment_completed(&mut self, generation: u64)
        requires
            old(self).wf(),
        ensures
            final(self).wf(),
            final(self).now() == (if generation == old(self).now().generation {
                AvState { events: old(self).now().events.push(BusEvent::Eos), ..old(self).now() }
            } else {
                old(self).now()
            }),
    {
        if generation == self.generation {
            self.events.push(BusEvent::Eos);
        }
    }

    /// Begins a load: refuses a raw disc track, and otherwise leaves the path
    /// empty, stopped and at its start, with nothing scheduled that counts. The
    /// drive is owned while a file on a mounted disc is loaded.
    pub fn load(&mut self, source: &MediaSource, on_optical: bool) -> (r: Result<
        Vec<GuardStep>,
        BackendError,
    >)
        requires
            old(self).wf(),
        ensures
            final(self).wf(),
            r is Err <==> *source is CdTrack,
            match r {
                Err(e) => {
                    &&& e.message@
                        == "AVFoundation cannot read raw CD audio; macOS mounts audio CDs as files, so a disc track should arrive as a file URI"@
                    &&& final(self).now() == old(self).now()
                },
                Ok(guard) => {
                    &&& final(self).now() == (AvState {
                        file: None,
                        state: PlayerState::Stopped,
                        segment_start: 0,
                        last_position: 0,
                        events: Seq::empty(),
                        owns_drive: on_optical,
                        ..old(self).now().invalidated()
                    })
                    &&& crate::engine::gst::guard_gain(guard@) == crate::engine::gst::held(
                        final(self).now().owns_drive,
                    ) - crate::engine::gst::held(old(self).now().owns_drive)
                    &&& guard@ == crate::engine::gst::guard_for(
                        old(self).now().owns_drive,
                        *source,
                        on_optical,
                    )
                },
            },
    {
        match source {
            MediaSource::CdTrack { .. } => {
                return Err(
                    BackendError {
                        message: "AVFoundation cannot read raw CD audio; macOS mounts audio CDs as files, so a disc track should arrive as a file URI".to_owned(),
                    },
                );
            },
            MediaSource::Uri(_) => {},
        }
        self.invalidate_schedule();
        self.events = Vec::new();
        self.file = None;
        self.state = PlayerState::Stopped;
        self.segment_start_frame = 0;
        self.last_position_frames = 0;
        let mut guard = self.release_disc_guard();
        if on_optical {
            let ghost before = guard@;
            guard.push(GuardStep::Begin);
            self.holds_disc_guard = true;
            assert(guard@.drop_last() =~= before);
        }
        Ok(guard)
    }

    /// Gives the drive back, if it is owned.
    pub fn release_disc_guard(&mut self) -> (r: Vec<GuardStep>)
        requires
            old(self).wf(),
        ensures
            final(self).wf(),
            final(self).now() == (AvState { owns_drive: false, ..old(self).now() }),
            crate::engine::gst::guard_gain(r@) == -crate::engine::gst::held(
                old(self).now().owns_drive,
            ),
            r@ == crate::engine::gst::given_back(old(self).now().owns_drive),
    {
        let mut steps: Vec<GuardStep> = Vec::new();
        if self.holds_disc_guard {
            self.holds_disc_guard = false;
            steps.push(GuardStep::End);
            assert(steps@.drop_last() =~= Seq::<GuardStep>::empty());
        }
        proof {
            reveal_with_fuel(crate::engine::gst::guard_gain, 3);
        }
        steps
    }

    /// What a transport state asks of the drive, whatever the state was: stopping
    /// gives it back.
    pub fn leave_drive(&mut self, state: PlayerState) -> (r: Vec<GuardStep>)
        requires
            old(self).wf(),
        ensures
            final(self).wf(),
            final(self).now() == (AvState {
                owns_drive: old(self).now().owns_drive && state != PlayerState::Stopped,
                ..old(self).now()
            }),
            crate::engine::gst::guard_gain(r@) == crate::engine::gst::held(
                final(self).now().owns_drive,
            ) - crate::engine::gst::held(old(self).now().owns_drive),
            r@ == crate::engine::gst::given_back(
                old(self).now().owns_drive && state == PlayerState::Stopped,
            ),
    {
        if state == PlayerState::Stopped {
            self.release_disc_guard()
        } else {
            Vec::new()
        }
    }

    /// The file of a load was opened: connects at its channel count and
    /// schedules it from its start. A file without a sample rate is refused;
    /// `said` is the rate as the file gave it.
    pub fn opened(
        &mut self,
        uri: &str,
        frames: i64,
        sample_rate: u64,
        said: &str,
        channels: u32,
    ) -> (r: Result<Option<Segment>, BackendError>)
        requires
            old(self).wf(),
        ensures
            final(self).wf(),
            r is Ok <==> sample_rate > 0,
            r matches Ok(segment) ==> ({
                let opened = AvState {
                    mono: channels == 1,
                    file: Some(LoadedFile { frames, sample_rate }),
                    ..old(self).now()
                };
                &&& segment == opened.segment(0)
                &&& final(self).now() == opened.scheduled(0)
            }),
            r matches Err(e) ==> {
                &&& e.message@ == uri@ + " reports a sample rate of "@ + said@
                &&& final(self).now() == old(self).now()
            },
    {
        if sample_rate == 0 {
            let mut message = uri.to_owned();
            message.append(" reports a sample rate of ");
            message.append(said);
            return Err(BackendError { message });
        }
        self.reconnect(channels);
        self.file = Some(LoadedFile { frames, sample_rate });
        self.schedule_from(0)
    }

    /// What to do to reach a transport state. Driving to the current state asks
    /// for nothing; playing needs a file. A stop cancels what is scheduled
    /// before anything stops.
    pub fn begin_state(&mut self, state: PlayerState) -> (r: Result<Vec<Move>, BackendError>)
        requires
            old(self).wf(),
        ensures
            final(self).wf(),
            r is Err <==> state == PlayerState::Playing && old(self).now().state
                != PlayerState::Playing && old(self).now().file is None,
            r matches Err(e) ==> e.message@ == "nothing loaded to play"@,
            r matches Ok(moves) ==> moves@ == (if old(self).now().state == state {
                Seq::empty()
            } else {
                match state {
                    PlayerState::Playing => seq![Move::StartEngine, Move::PlayPlayer],
                    PlayerState::Paused => seq![Move::PausePlayer, Move::PauseEngine],
                    PlayerState::Stopped => seq![Move::StopPlayer, Move::StopEngine],
                }
            }),
            final(self).now() == (if state == PlayerState::Stopped && old(self).now().state
                != PlayerState::Stopped {
                old(self).now().invalidated()
            } else {
                old(self).now()
            }),
    {
        let mut moves: Vec<Move> = Vec::new();
        if self.state == state {
            assert(moves@ =~= Seq::empty());
            return Ok(moves);
        }
        match state {
            PlayerState::Playing => {
                if self.file.is_none() {
                    return Err(BackendError { message: "nothing loaded to play".to_owned() });
                }
                moves.push(Move::StartEngine);
                moves.push(Move::PlayPlayer);
                assert(moves@ =~= seq![Move::StartEngine, Move::PlayPlayer]);
            },
            PlayerState::Paused => {
                moves.push(Move::PausePlayer);
                moves.push(Move::PauseEngine);
                assert(moves@ =~= seq![Move::PausePlayer, Move::PauseEngine]);
            },
            PlayerState::Stopped => {
                self.invalidate_schedule();
                moves.push(Move::StopPlayer);
                moves.push(Move::StopEngine);
                assert(moves@ =~= seq![Move::StopPlayer, Move::StopEngine]);
            },
        }
        Ok(moves)
    }

    /// The transport state was reached. A stop leaves the file scheduled from
    /// its start again, so that a play after it plays the same track.
    pub fn finish_state(&mut self, state: PlayerState) -> (r: Option<Segment>)
        requires
            old(self).wf(),
        ensures
            final(self).wf(),
            final(self).now().state == state,
            ({
                let reached = AvState { state, ..old(self).now() };
                if old(self).now().state != state && state == PlayerState::Stopped && old(self).now().file is Some {
                    &&& r == reached.segment(0)
                    &&& final(self).now() == reached.scheduled(0)
                } else {
                    &&& r is None
                    &&& final(self).now() == reached
                }
            }),
    {
        let changed = self.state != state;
        self.state = state;
        if changed && state == PlayerState::Stopped && self.file.is_some() {
            match self.schedule_from(0) {
                Ok(segment) => segment,
                Err(_) => None,
            }
        } else {
            None
        }
    }

    /// Jumps to a position: what is scheduled no longer counts, and the file is
    /// scheduled from the nearest frame. The moves come before the segment is
    /// handed over, and `true` asks to start playing again after it.
    pub fn seek(&mut self, to: u64) -> (r: Result<(Option<Segment>, bool), BackendError>)
        requires
            old(self).wf(),
        ensures
            final(self).wf(),
            match r {
                Err(e) => {
                    &&& old(self).now().file is None
                    &&& e.message@ == "nothing loaded to seek"@
                    &&& final(self).now() == old(self).now()
                },
                Ok((segment, play)) => {
                    &&& old(self).now().file matches Some(f) && ({
                        let frame = time_as_frames(to as int, f.sample_rate as int);
                        let cleared = old(self).now().invalidated();
                        &&& segment == cleared.segment(frame)
                        &&& final(self).now() == cleared.scheduled(frame)
                    })
                    &&& play == (old(self).now().state == PlayerState::Playing)
                },
            },
    {
        let rate: u64 = match self.file {
            None => return Err(BackendError { message: "nothing loaded to seek".to_owned() }),
            Some(f) => f.sample_rate,
        };
        let frame: i64 = nearest_frame(to, rate);
        let play = self.state == PlayerState::Playing;
        self.invalidate_schedule();
        match self.schedule_from(frame) {
            Ok(segment) => Ok((segment, play)),
            Err(e) => Err(e),
        }
    }

    /// Position and duration from one snapshot. `played` is how many frames of
    /// the current schedule the player has rendered, `None` while it does not
    /// play: the position last read is then where the transport still sits.
    pub fn timeline(&mut self, played: Option<i64>) -> (r: Timeline)
        requires
            old(self).wf(),
        ensures
            final(self).wf(),
            match old(self).now().file {
                None => {
                    &&& r == (Timeline { position: None, duration: None })
                    &&& final(self).now() == old(self).now()
                },
                Some(f) => {
                    let at = match played {
                        Some(n) => crate::engine::backend::clamped(
                            old(self).now().segment_start + n,
                            0,
                            if f.frames < 0 {
                                0
                            } else {
                                f.frames as int
                            },
                        ),
                        None => old(self).now().last_position,
                    };
                    &&& r.position == Some(frames_as_time(at, f.sample_rate as int) as u64)
                    &&& r.duration == Some(
                        frames_as_time(
                            if f.frames < 0 {
                                0
                            } else {
                                f.frames as int
                            },
                            f.sample_rate as int,
                        ) as u64,
                    )
                    &&& final(self).now() == (AvState { last_position: at, ..old(self).now() })
                },
            },
    {
        let loaded = match self.file {
            None => return Timeline { position: None, duration: None },
            Some(f) => f,
        };
        let length: i64 = if loaded.frames < 0 {
            0
        } else {
            loaded.frames
        };
        let at: i64 = match played {
            Some(n) => {
                let reached: i128 = self.segment_start_frame as i128 + n as i128;
                if reached < 0 {
                    0
                } else if reached > length as i128 {
                    length
                } else {
                    reached as i64
                }
            },
            None => self.last_position_frames,
        };
        self.last_position_frames = at;
        Timeline {
            position: Some(frame_time(at, loaded.sample_rate)),
            duration: Some(frame_time(length, loaded.sample_rate)),
        }
    }

    /// The next event, oldest first.
    pub fn poll_event(&mut self) -> (r: Option<BusEvent>)
        requires
            old(self).wf(),
        ensures
            final(self).wf(),
            if old(self).now().events.len() == 0 {
                &&& r is None
                &&& final(self).now() == old(self).now()
            } else {
                &&& r == Some(old(self).now().events[0])
                &&& final(self).now() == (AvState {
                    events: old(self).now().events.subrange(
                        1,
                        old(self).now().events.len() as int,
                    ),
                    ..old(self).now()
                })
            },
    {
        if self.events.len() == 0 {
            None
        } else {
            let e = self.events.remove(0);
            assert(self.events@ =~= old(self).events@.subrange(1, old(self).events@.len() as int));
            Some(e)
        }
    }

    pub fn set_output_gain(&mut self, gain: Amplitude)
        requires
            old(self).wf(),
        ensures
            final(self).wf(),
            final(self).now() == (AvState { gain, ..old(self).now() }),
    {
        self.gain = gain;
    }

    /// The ten gains, as the bands of the equalizer unit are to have them.
    pub fn eq(&self) -> (r: EqCurve)
        ensures
            r == self.now().eq,
    {
        self.eq
    }

    /// Installs all ten band gains.
    pub fn set_eq(&mut self, curve: &EqCurve)
        requires
            old(self).wf(),
        ensures
            final(self).wf(),
            final(self).now() == (AvState { eq: *curve, ..old(self).now() }),
    {
        self.eq = *curve;
    }

    /// A plain gain, in force at once.
    pub fn set_normalization(&mut self, want: Normalization) -> (r: Applied)
        requires
            old(self).wf(),
        ensures
            final(self).wf(),
            r == Applied::Now,
            final(self).now() == (AvState { normalization: want, ..old(self).now() }),
    {
        self.normalization = want;
        Applied::Now
    }
}

/// A schedule that was cancelled never ends the track: once it has been
/// invalidated any number of times short of a full turn of the counter, its
/// completion leaves the events as they were.
pub proof fn law_cancelled_schedule_posts_nothing(at: AvState, times: nat)
    requires
        0 < times < 0x1_0000_0000_0000_0000,
    ensures
        invalidated_times(at, times).generation != at.generation,
        invalidated_times(at, times).events == at.events,
{
    lemma_generation(at, times);
    if at.generation + times < 0x1_0000_0000_0000_0000 {
        vstd::arithmetic::div_mod::lemma_small_mod(
            (at.generation + times) as nat,
            0x1_0000_0000_0000_0000,
        );
    } else {
        vstd::arithmetic::div_mod::lemma_mod_sub_multiples_vanish(
            at.generation + times,
            0x1_0000_0000_0000_0000,
        );
        vstd::arithmetic::div_mod::lemma_small_mod(
            (at.generation + times - 0x1_0000_0000_0000_0000) as nat,
            0x1_0000_0000_0000_0000,
        );
    }
}

/// A state invalidated several times.
pub open spec fn invalidated_times(at: AvState, times: nat) -> AvState
    decreases times,
{
    if times == 0 {
        at
    } else {
        invalidated_times(at, (times - 1) as nat).invalidated()
    }
}

proof fn lemma_generation(at: AvState, times: nat)
    requires
        times < 0x1_0000_0000_0000_0000,
    ensures
        invalidated_times(at, times).generation as int == (at.generation + times)
            % 0x1_0000_0000_0000_0000,
        invalidated_times(at, times).events == at.events,
    decreases times,
{
    if times == 0 {
        vstd::arithmetic::div_mod::lemma_small_mod(
            at.generation as nat,
            0x1_0000_0000_0000_0000,
        );
    } else {
        lemma_generation(at, (times - 1) as nat);
    }
}

/// The frame nearest to a time.
fn nearest_frame(to: u64, rate: u64) -> (r: i64)
    ensures
        r == time_as_frames(to as int, rate as int),
        r >= 0,
{
    assert(0 <= to * rate <= 0xffff_ffff_ffff_ffff * 0xffff_ffff_ffff_ffff) by (nonlinear_arith)
        requires
            0 <= to <= 0xffff_ffff_ffff_ffff,
            0 <= rate <= 0xffff_ffff_ffff_ffff,
    ;
    let scaled: u128 = (to as u128) * (rate as u128);
    let frames: u128 = (scaled + 500_000_000_000) / 1_000_000_000_000;
    if frames > i64::MAX as u128 {
        i64::MAX
    } else {
        frames as i64
    }
}

/// The time of a frame.
fn frame_time(frames: i64, rate: u64) -> (r: u64)
    requires
        frames >= 0,
        rate > 0,
    ensures
        r == frames_as_time(frames as int, rate as int),
{
    let scaled: u128 = (frames as u128) * 1_000_000_000_000 + (rate / 2) as u128;
    let ns: u128 = scaled / (rate as u128);
    if ns > u64::MAX as u128 {
        u64::MAX
    } else {
        ns as u64
    }
}

/// The first channel of a delivered buffer: every frame that was delivered, as
/// the words that stand in it, `stride` apart. Nothing where the buffer has no
/// channel.
pub fn mono_samples(channel: Option<&[u32]>, frames: usize, stride: usize) -> (r: Vec<u32>)
    requires
        channel matches Some(words) ==> frames == 0 || (frames - 1) * stride < words@.len(),
    ensures
        match channel {
            Some(words) => r@.len() == frames && forall|i: int|
                0 <= i < frames ==> #[trigger] r@[i] == words@[i * stride],
            None => r@.len() == 0,
        },
{
    let mut out: Vec<u32> = Vec::new();
    let words = match channel {
        Some(words) => words,
        None => return out,
    };
    let mut i: usize = 0;
    let mut at: usize = 0;
    while i < frames
        invariant
            i <= frames,
            channel == Some(words),
            frames == 0 || (frames - 1) * stride < words@.len(),
            i < frames ==> at == i * stride,
            out@.len() == i,
            forall|k: int| 0 <= k < i ==> #[trigger] out@[k] == words@[k * stride],
        decreases frames - i,
    {
        assert(i * stride <= (frames - 1) * stride) by (nonlinear_arith)
            requires
                0 <= i <= frames - 1,
                0 <= stride,
        ;
        out.push(words[at]);
        i += 1;
        if i < frames {
            assert(at + stride == i * stride) by (nonlinear_arith)
                requires
                    at == (i - 1) * stride,
            ;
            assert(i * stride <= (frames - 1) * stride) by (nonlinear_arith)
                requires
                    0 <= i <= frames - 1,
                    0 <= stride,
            ;
            at += stride;
        }
    }
    out
}

/// The latest samples, as many as one spectrum frame is computed from.
pub struct SpectrumWindow {
    recent: Vec<i64>,
}

impl SpectrumWindow {
    /// The samples held, oldest first.
    pub closed spec fn samples(&self) -> Seq<i64> {
        self.recent@
    }

    pub fn new() -> (r: SpectrumWindow)
        ensures
            r.samples() == Seq::<i64>::empty(),
    {
        SpectrumWindow { recent: Vec::new() }
    }

    /// Takes in a capture of any length, and hands out the window once it is
    /// full.
    pub fn feed(&mut self, samples: &Vec<i64>) -> (r: Option<&Vec<i64>>)
        ensures
            final(self).samples() == crate::engine::analysis::last_n(
                old(self).samples() + samples@,
                SPECTRUM_FFT_SIZE as int,
            ),
            match r {
                Some(window) => window@ == final(self).samples() && window@.len() == SPECTRUM_FFT_SIZE,
                None => final(self).samples().len() < SPECTRUM_FFT_SIZE,
            },
            r is Some <==> old(self).samples().len() + samples@.len() >= 512,
            r matches Some(window) ==> window@.len() == 512,
    {
        self.recent = latest(&self.recent, samples, SPECTRUM_FFT_SIZE);
        if self.recent.len() < SPECTRUM_FFT_SIZE {
            None
        } else {
            Some(&self.recent)
        }
    }
}

/// What a window holds once captures were fed to it in turn.
pub open spec fn fed(held: Seq<i64>, captures: Seq<Seq<i64>>) -> Seq<i64> {
    crate::engine::analysis::written(held, captures, SPECTRUM_FFT_SIZE as int)
}

/// All captures, end to end.
pub open spec fn joined(captures: Seq<Seq<i64>>) -> Seq<i64>
    decreases captures.len(),
{
    if captures.len() == 0 {
        Seq::empty()
    } else {
        joined(captures.drop_last()) + captures.last()
    }
}

/// However the samples are cut into captures, the window is the same: it holds
/// what it would hold had they all come at once.
pub proof fn law_the_window_ignores_the_cut(held: Seq<i64>, captures: Seq<Seq<i64>>)
    requires
        held.len() <= SPECTRUM_FFT_SIZE,
    ensures
        fed(held, captures) == crate::engine::analysis::last_n(
            held + joined(captures),
            SPECTRUM_FFT_SIZE as int,
        ),
    decreases captures.len(),
{
    let n = SPECTRUM_FFT_SIZE as int;
    if captures.len() == 0 {
        assert(held + joined(captures) =~= held);
    } else {
        law_the_window_ignores_the_cut(held, captures.drop_last());
        let a = joined(captures.drop_last());
        let b = captures.last();
        crate::engine::analysis::law_scope_ignores_chunking(held, a, b, n);
    }
}

/// A magnitude, no lower than the floor; silence is the floor.
pub fn floored(db: Option<i64>) -> (r: i64)
    ensures
        r == (match db {
            Some(v) => if v < SPECTRUM_FLOOR_DB {
                SPECTRUM_FLOOR_DB
            } else {
                v
            },
            None => SPECTRUM_FLOOR_DB,
        }),
        r >= -60_000_000,
        db is None ==> r == -60_000_000,
        db matches Some(v) ==> v < r ==> r == -60_000_000,
        db matches Some(v) ==> v >= -60_000_000 ==> r == v,
{
    match db {
        Some(v) => if v < SPECTRUM_FLOOR_DB {
            SPECTRUM_FLOOR_DB
        } else {
            v
        },
        None => SPECTRUM_FLOOR_DB,
    }
}

/// The ten bands are centred an octave apart, low frequency first.
pub proof fn law_the_bands_are_an_octave_apart(i: int)
    requires
        0 <= i < 9,
    ensures
        band_centres().len() == 10,
        band_centres()[0] == 29,
        band_centres()[9] == 15011,
        19 * band_centres()[i] <= 10 * band_centres()[i + 1] <= 21 * band_centres()[i],
{
    let c = band_centres();
    assert(c[0] == 29 && c[1] == 59 && c[2] == 119 && c[3] == 237 && c[4] == 474 && c[5] == 947
        && c[6] == 1889 && c[7] == 3770 && c[8] == 7523 && c[9] == 15011);
}

/// A time in frames is the nearest frame, and a frame in time the nearest nanosecond; the
/// rate is in thousandths of a hertz.
pub proof fn law_times_and_frames_are_rounded_to_the_nearest(ns: u64, frames: i64, rate: u64)
    requires
        rate > 0,
        frames >= 0,
        ns <= 1_000_000_000_000_000_000,
        rate <= 1_000_000_000,
        frames <= 1_000_000_000_000_000,
    ensures
        ({
            let f = time_as_frames(ns as int, rate as int);
            f < i64::MAX ==> 2 * (f * 1_000_000_000_000 - ns * rate) <= 1_000_000_000_000 && 2 * (ns
                * rate - f * 1_000_000_000_000) <= 1_000_000_000_000
        }),
        ({
            let t = frames_as_time(frames as int, rate as int);
            t < u64::MAX ==> 2 * (t * rate - frames * 1_000_000_000_000) <= rate && 2 * (frames
                * 1_000_000_000_000 - t * rate) <= rate
        }),
{
    let x = ns * rate;
    assert(x >= 0) by (nonlinear_arith)
        requires
            x == ns * rate,
            ns >= 0,
            rate >= 0,
    ;
    let y = frames * 1_000_000_000_000;
    let r = rate as int;
    let q = (y + r / 2) / r;
    vstd::arithmetic::div_mod::lemma_fundamental_div_mod(y + r / 2, r);
    vstd::arithmetic::div_mod::lemma_mod_bound(y + r / 2, r);
    assert(q * r <= y + r / 2 < q * r + r) by (nonlinear_arith)
        requires
            y + r / 2 == r * q + (y + r / 2) % r,
            0 <= (y + r / 2) % r < r,
    ;
}

/// A segment plays from where it was asked for to the end of the file, as far as one segment
/// goes, and there is none from the end on.
pub proof fn law_a_segment_plays_to_the_end(at: AvState, from: int)
    requires
        at.file is Some,
        0 <= from <= i64::MAX,
    ensures
        from >= at.file.unwrap().frames ==> at.segment(from) is None,
        from < at.file.unwrap().frames ==> {
            &&& at.segment(from) matches Some(s)
            &&& s.from == from
            &&& s.generation == at.generation
            &&& at.file.unwrap().frames - from <= u32::MAX ==> s.from + s.frames
                == at.file.unwrap().frames
            &&& 0 < s.frames
        },
        at.segment(from) is None ==> at.scheduled(from).events == at.events.push(BusEvent::Eos),
        at.segment(from) is Some ==> {
            &&& at.scheduled(from).events == at.events
            &&& at.scheduled(from).segment_start == from
            &&& at.scheduled(from).last_position == from
        },
{
}

/// The gain stage carries the level, and with it the normalization where that is on and the
/// compensation of a mono source where it is one, within the range of the stage.
pub proof fn law_the_gain_stage_carries_the_sum(at: AvState, db: i64)
    ensures
        ({
            let plain = AvState {
                normalization: Normalization { enabled: false, ..at.normalization },
                mono: false,
                ..at
            };
            let normalized = AvState {
                normalization: Normalization { enabled: true, ..at.normalization },
                mono: false,
                ..at
            };
            let mono = AvState { mono: true, ..plain };
            &&& -96_000_000 <= at.stage_gain(Some(db)) <= 24_000_000
            &&& at.stage_gain(None) <= at.stage_gain(Some(db)) || db < -96_000_000
            &&& -96_000_000 <= db <= 24_000_000 ==> plain.stage_gain(Some(db)) == db
            &&& plain.stage_gain(None) == -96_000_000
            &&& -96_000_000 <= db + at.normalization.fallback_db <= 24_000_000
                ==> normalized.stage_gain(Some(db)) == db + at.normalization.fallback_db
            &&& -96_000_000 <= db + 3_010_300 <= 24_000_000 ==> mono.stage_gain(Some(db))
                == db + 3_010_300
        }),
{
}

} // verus!
