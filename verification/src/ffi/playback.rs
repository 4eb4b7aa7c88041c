//! Transport, navigation, repeat and shuffle, and what a session keeps between
//! runs.

use crate::config::{Config, RepeatMode, RgSource};
use crate::engine;
use crate::engine::backend;
use crate::engine::backend::{AudioBackend, BackendError, Call, UNITY_PPB};
use crate::engine::{Player, PlayerState, Settings};
use crate::ffi;
use crate::ffi::queue::sync_queue_to_playlist;
use crate::ffi::{load_or_report, share, start_current, Gains, SparkampCtx};
use crate::model;
use crate::model::{path_uri, Playlist};
use crate::queue;
use crate::shuffle::ShuffleState;
use crate::text::starts_with;
use vstd::prelude::*;

verus! {

/// How far into a track a step back restarts it, in nanoseconds.
pub const RESTART_AFTER: u64 = 5_000_000_000;

/// Whether a list has the row that an index names; a negative one names none.
pub open spec fn has_row(p: model::PlaylistView, index: i32) -> bool {
    0 <= index < p.rows.len()
}

/// The row an index names, where the list has it.
pub fn row_at<B: AudioBackend>(ctx: &SparkampCtx<B>, index: i32) -> (r: Option<usize>)
    ensures
        r == (if has_row(ctx.playlist@, index) {
            Some(index as usize)
        } else {
            None::<usize>
        }),
{
    if index < 0 {
        return None;
    }
    let i: usize = index as usize;
    if i < ctx.playlist.len() {
        Some(i)
    } else {
        None
    }
}

/// What is loaded for a text: an absolute path as the URI of the file there,
/// anything else as it is.
pub open spec fn uri_given(text: Seq<char>) -> Seq<char> {
    if text.len() > 0 && text[0] == '/' {
        model::uri_of(text)
    } else {
        text
    }
}

/// A player that no longer stops after the current track.
pub open spec fn disarmed<B: AudioBackend>(after: Player<B>, before: Player<B>) -> bool {
    &&& after.settings() == (Settings { stop_after_current: false, ..before.settings() })
    &&& after.audio() == before.audio()
    &&& after.visual() == before.visual()
}

/// Loads a URI, or the file at an absolute path, and plays it. A stop armed for the
/// end of the track before is given up.
pub fn sparkamp_load_and_play<B: AudioBackend>(
    ctx: Option<&mut SparkampCtx<B>>,
    uri: Option<&str>,
) -> (r: Option<String>)
    requires
        ctx matches Some(c) ==> c.wf(),
    ensures
        ctx matches Some(c) ==> {
            &&& final(c).wf()
            &&& match uri {
                Some(u) => {
                    &&& exists|mid: Player<B>| #[trigger]
                        disarmed(mid, c.player) && ffi::started_saying(
                            final(c).player,
                            mid,
                            uri_given(u@),
                            r,
                        )
                    &&& !final(c).player.settings().stop_after_current
                    &&& *final(c) == (SparkampCtx { player: final(c).player, ..*c })
                },
                None => *final(c) == *c && r is None,
            }
        },
        ctx is None ==> r is None,
{
    match (ctx, uri) {
        (Some(c), Some(u)) => {
            let ghost found = c.player;
            c.player.set_stop_after_current(false);
            let ghost before = c.player;
            assert(disarmed(before, found));
            proof {
                reveal_strlit("/");
            }
            let r = if starts_with(u, "/") {
                assert(u@[0] == u@.subrange(0, 1)[0]);
                let file = path_uri(u);
                load_or_report(&mut c.player, file.as_str())
            } else {
                assert(u@.len() > 0 ==> u@.subrange(0, 1) =~= seq![u@[0]]);
                assert("/"@ =~= seq!['/']);
                load_or_report(&mut c.player, u)
            };
            let ghost mid = c.player;
            let played = c.player.play();
            proof {
                ffi::lemma_started(c.player, mid, before, uri_given(u@), r, played);
            }
            r
        },
        _ => None,
    }
}

/// The player that a press of play starts from: a stop armed for the end of the
/// track is given up where nothing played, and stands where a pause ends.
pub open spec fn freed<B: AudioBackend>(mid: Player<B>, before: Player<B>) -> bool {
    if before.settings().state == PlayerState::Stopped {
        disarmed(mid, before)
    } else {
        mid == before
    }
}

/// What a press of play leaves of the session it found.
pub open spec fn play_pressed<B: AudioBackend>(
    after: SparkampCtx<B>,
    before: SparkampCtx<B>,
    said: Option<String>,
) -> bool {
    let stopped = before.player.settings().state == PlayerState::Stopped;
    &&& after == (SparkampCtx {
        player: after.player,
        shuffle_state: after.shuffle_state,
        ..before
    })
    &&& exists|mid: Player<B>|
        {
            &&& #[trigger] freed(mid, before.player)
            &&& match before.playlist@.current_row() {
                Some(t) if stopped => {
                    &&& ffi::started_saying(after.player, mid, model::uri_of(t.path), said)
                    &&& after.shuffle_state.recorded(
                        &before.shuffle_state,
                        before.playlist@.current as usize,
                    )
                },
                _ => {
                    &&& exists|r: Result<(), BackendError>| #[trigger]
                        after.player.play_settled(&mid, r)
                    &&& after.shuffle_state == before.shuffle_state
                    &&& said is None
                },
            }
        }
}

/// Plays, resuming where paused. Where stopped, the current track is loaded
/// first and goes into the shuffle history, and a stop armed for the end of a
/// track is given up; a resume is the same listening going on, and does neither.
pub fn sparkamp_play<B: AudioBackend>(ctx: Option<&mut SparkampCtx<B>>) -> (r: Option<String>)
    requires
        ctx matches Some(c) ==> c.wf(),
    ensures
        ctx matches Some(c) ==> final(c).wf() && play_pressed(*final(c), *c, r),
        ctx is None ==> r is None,
{
    let c = match ctx {
        Some(c) => c,
        None => return None,
    };
    let ghost before = *c;
    let mut r: Option<String> = None;
    let stopped = c.player.state() == PlayerState::Stopped;
    if stopped {
        c.player.set_stop_after_current(false);
    }
    let ghost ready = c.player;
    assert(freed(ready, before.player));
    if stopped {
        if let Some(t) = c.playlist.current() {
            let uri = path_uri(t.path.as_str());
            r = load_or_report(&mut c.player, uri.as_str());
        }
    }
    let ghost mid = c.player;
    let played = c.player.play();
    assert(c.player.play_settled(&mid, played));
    if stopped {
        let at: usize = c.playlist.current_index();
        if at < c.playlist.len() {
            c.shuffle_state.record_played(at);
        }
    }
    proof {
        if let Some(t) = before.playlist@.current_row() {
            if stopped {
                ffi::lemma_started(c.player, mid, ready, model::uri_of(t.path), r, played);
            }
        }
    }
    r
}

/// Pauses; does nothing unless playing.
pub fn sparkamp_pause<B: AudioBackend>(ctx: Option<&mut SparkampCtx<B>>)
    requires
        ctx matches Some(c) ==> c.wf(),
    ensures
        ctx matches Some(c) ==> {
            &&& final(c).wf()
            &&& *final(c) == (SparkampCtx { player: final(c).player, ..*c })
            &&& if c.player.settings().state == PlayerState::Playing {
                exists|r: Result<(), BackendError>| #[trigger]
                    final(c).player.toggle_settled(&c.player, r)
            } else {
                final(c).player == c.player
            }
        },
{
    if let Some(c) = ctx {
        if c.player.state() == PlayerState::Playing {
            let ghost before = c.player;
            let r = c.player.toggle_pause();
            assert(c.player.toggle_settled(&before, r));
        }
    }
}

/// What a press of stop leaves of the player it found: a stop armed for the end
/// of the track is given up with it.
pub open spec fn stop_pressed<B: AudioBackend>(after: Player<B>, before: Player<B>) -> bool {
    exists|mid: Player<B>, r: Result<(), BackendError>|
        {
            &&& #[trigger] disarmed(mid, before)
            &&& #[trigger] after.stop_settled(&mid, r)
        }
}

/// Stops.
pub fn sparkamp_stop<B: AudioBackend>(ctx: Option<&mut SparkampCtx<B>>)
    requires
        ctx matches Some(c) ==> c.wf(),
    ensures
        ctx matches Some(c) ==> {
            &&& final(c).wf()
            &&& *final(c) == (SparkampCtx { player: final(c).player, ..*c })
            &&& stop_pressed(final(c).player, c.player)
        },
{
    if let Some(c) = ctx {
        let ghost before = c.player;
        c.player.set_stop_after_current(false);
        let ghost mid = c.player;
        assert(disarmed(mid, before));
        let r = c.player.stop();
        assert(c.player.stop_settled(&mid, r));
    }
}

/// A fraction moved into zero to one, in parts per billion.
pub fn clamp_fraction(fraction: i64) -> (r: u64)
    ensures
        r == backend::clamped(fraction as int, 0, UNITY_PPB as int),
        r <= UNITY_PPB,
{
    if fraction < 0 {
        0
    } else if fraction > UNITY_PPB as i64 {
        UNITY_PPB
    } else {
        fraction as u64
    }
}

/// What a seek to a fraction of a duration leaves of the session it found.
pub open spec fn sought_within<B: AudioBackend>(
    after: SparkampCtx<B>,
    before: SparkampCtx<B>,
    fraction: i64,
    duration: Option<u64>,
) -> bool {
    &&& after == (SparkampCtx { player: after.player, ..before })
    &&& match duration {
        Some(total) => {
            &&& exists|r: Result<(), BackendError>| #[trigger]
                B::step(
                    before.player.audio(),
                    Call::Seek(
                        ffi::share_of(
                            total,
                            backend::clamped(fraction as int, 0, UNITY_PPB as int) as u64,
                        ) as u64,
                        r,
                    ),
                    after.player.audio(),
                )
            &&& after.player.settings() == before.player.settings()
            &&& after.player.visual() == before.player.visual()
            &&& after.player.audio().level() == before.player.audio().level()
        },
        None => after.player == before.player,
    }
}

/// Seeks to a fraction, in parts per billion, of a duration; nothing happens
/// where that is not known.
pub fn seek_within<B: AudioBackend>(
    ctx: &mut SparkampCtx<B>,
    fraction: i64,
    duration: Option<u64>,
)
    requires
        old(ctx).wf(),
    ensures
        final(ctx).wf(),
        sought_within(*final(ctx), *old(ctx), fraction, duration),
{
    if let Some(total) = duration {
        let to: u64 = share(total, clamp_fraction(fraction));
        let _ = ctx.player.seek(to);
    }
}

/// Seeks to a fraction, in parts per billion, of the loaded track.
pub fn sparkamp_seek<B: AudioBackend>(ctx: Option<&mut SparkampCtx<B>>, fraction: i64)
    requires
        ctx matches Some(c) ==> c.wf(),
    ensures
        ctx matches Some(c) ==> {
            &&& final(c).wf()
            &&& *final(c) == (SparkampCtx { player: final(c).player, ..*c })
            &&& final(c).player.settings() == c.player.settings()
            &&& exists|total: Option<u64>| #[trigger]
                c.player.may_last(total) && sought_within(*final(c), *c, fraction, total)
        },
{
    if let Some(c) = ctx {
        let total = c.player.duration();
        seek_within(c, fraction, total);
    }
}

/// Sets the volume, in parts per billion, moved into zero to one, and remembers
/// it.
pub fn sparkamp_set_volume<B: AudioBackend>(ctx: Option<&mut SparkampCtx<B>>, vol: i64)
    requires
        ctx matches Some(c) ==> c.wf(),
    ensures
        ctx matches Some(c) ==> {
            let level = backend::clamped(vol as int, 0, UNITY_PPB as int) as u64;
            &&& final(c).wf()
            &&& final(c).config == (Config {
                playback: crate::config::PlaybackConfig { volume: level, ..c.config.playback },
                ..c.config
            })
            &&& final(c).player.settings() == (engine::Settings {
                volume: level,
                ..c.player.settings()
            })
            &&& final(c).player.level_in_step()
            &&& final(c).player.same_path(&c.player)
            &&& final(c).player.visual() == c.player.visual()
            &&& *final(c) == (SparkampCtx {
                player: final(c).player,
                config: final(c).config,
                ..*c
            })
        },
{
    if let Some(c) = ctx {
        let level: u64 = clamp_fraction(vol);
        c.player.set_volume(level as i64);
        c.config.playback.volume = level;
    }
}

/// The volume, in parts per billion.
pub fn sparkamp_get_volume<B: AudioBackend>(ctx: Option<&SparkampCtx<B>>) -> (r: u64)
    ensures
        r == (match ctx {
            Some(c) => c.config.playback.volume,
            None => 0,
        }),
{
    match ctx {
        Some(c) => c.config.playback.volume,
        None => 0,
    }
}

/// The position in nanoseconds, zero when nothing is loaded.
pub fn sparkamp_get_position<B: AudioBackend>(ctx: Option<&SparkampCtx<B>>) -> (r: u64)
    ensures
        ctx is None ==> r == 0,
        ctx matches Some(c) ==> exists|at: Option<u64>| #[trigger]
            c.player.may_be_at(at) && r == (match at {
                Some(pos) => pos,
                None => 0,
            }),
{
    match ctx {
        Some(c) => match c.player.position() {
            Some(pos) => pos,
            None => 0,
        },
        None => 0,
    }
}

/// The length shown: what the player reports, or else what it last reported, or
/// else what the current entry is known to have.
pub open spec fn shown_duration(
    reported: Option<u64>,
    last_known: Option<u64>,
    p: model::PlaylistView,
) -> Option<u64> {
    if reported is Some {
        reported
    } else if last_known is Some {
        last_known
    } else {
        match p.current_row() {
            Some(t) => t.duration,
            None => None,
        }
    }
}

/// The length shown, given what the player reports.
pub fn duration_given<B: AudioBackend>(ctx: &SparkampCtx<B>, reported: Option<u64>) -> (r: Option<
    u64,
>)
    ensures
        r == shown_duration(reported, ctx.last_known_duration, ctx.playlist@),
{
    if reported.is_some() {
        reported
    } else if ctx.last_known_duration.is_some() {
        ctx.last_known_duration
    } else {
        match ctx.playlist.current() {
            Some(t) => t.duration,
            None => None,
        }
    }
}

/// The length of the current track in nanoseconds. It survives a stop.
pub fn sparkamp_get_duration<B: AudioBackend>(ctx: Option<&SparkampCtx<B>>) -> (r: Option<u64>)
    ensures
        ctx is None ==> r is None,
        ctx matches Some(c) ==> exists|reported: Option<u64>| #[trigger]
            c.player.may_last(reported) && r == shown_duration(
                reported,
                c.last_known_duration,
                c.playlist@,
            ),
{
    match ctx {
        Some(c) => {
            let reported = c.player.duration();
            duration_given(c, reported)
        },
        None => None,
    }
}

/// The number of a transport state.
pub open spec fn state_code(state: PlayerState) -> int {
    match state {
        PlayerState::Stopped => 0,
        PlayerState::Playing => 1,
        PlayerState::Paused => 2,
    }
}

pub fn sparkamp_get_state<B: AudioBackend>(ctx: Option<&SparkampCtx<B>>) -> (r: i32)
    ensures
        r == (match ctx {
            Some(c) => state_code(c.player.settings().state),
            None => 0,
        }),
{
    match ctx {
        Some(c) => match c.player.state() {
            PlayerState::Stopped => 0,
            PlayerState::Playing => 1,
            PlayerState::Paused => 2,
        },
        None => 0,
    }
}

/// What a step to `target` leaves of the session it found: the length of the
/// track before it is forgotten, and a stop armed for its end is given up; the
/// track there is played, or only loaded where nothing was playing or paused. A
/// step with no target goes nowhere. What becomes of the shuffle history is said
/// of each direction on its own.
pub open spec fn stepped<B: AudioBackend>(
    after: SparkampCtx<B>,
    before: SparkampCtx<B>,
    target: Option<usize>,
    gains: Gains,
    said: Option<String>,
) -> bool {
    &&& after == (SparkampCtx {
        player: after.player,
        playlist: after.playlist,
        shuffle_state: after.shuffle_state,
        last_known_duration: None,
        ..before
    })
    &&& exists|mid: Player<B>|
        {
            &&& #[trigger] disarmed(mid, before.player)
            &&& match target {
                Some(i) if i < before.playlist@.rows.len() => {
                    let uri = model::uri_of(before.playlist@.rows[i as int].path);
                    &&& after.playlist@ == (model::PlaylistView {
                        current: i as int,
                        ..before.playlist@
                    })
                    &&& if before.player.settings().state != PlayerState::Stopped {
                        ffi::primed_saying(
                            after.player,
                            mid,
                            uri,
                            ffi::gain_in(before.config.playback, gains),
                            said,
                        )
                    } else {
                        ffi::loaded_saying(after.player, mid, uri, said)
                    }
                },
                _ => after.player == mid && after.playlist == before.playlist && said is None,
            }
        }
}

/// What a step forward leaves of the session it found: under shuffle, the row it
/// lands on goes into the history.
pub open spec fn stepped_on<B: AudioBackend>(
    after: SparkampCtx<B>,
    before: SparkampCtx<B>,
    target: Option<usize>,
    gains: Gains,
    said: Option<String>,
) -> bool {
    &&& stepped(after, before, target, gains, said)
    &&& match target {
        Some(i) if i < before.playlist@.rows.len() && before.shuffle_state.enabled =>
            after.shuffle_state.recorded(&before.shuffle_state, i),
        _ => after.shuffle_state == before.shuffle_state,
    }
}

/// What a step back leaves of the session it found, `position` nanoseconds into a
/// track: where it goes by the shuffle history the cursor there moves, and nothing
/// is recorded.
pub open spec fn stepped_back<B: AudioBackend>(
    after: SparkampCtx<B>,
    before: SparkampCtx<B>,
    position: u64,
    gains: Gains,
    said: Option<String>,
) -> bool {
    &&& stepped(
        after,
        before,
        prev_target(
            before.playlist@,
            position,
            before.shuffle_state,
            before.config.playback.repeat_mode,
        ),
        gains,
        said,
    )
    &&& if by_history(before.playlist@, position, before.shuffle_state) {
        after.shuffle_state.walked(&before.shuffle_state)
    } else {
        after.shuffle_state == before.shuffle_state
    }
}

/// Steps to the row that navigation picked.
pub fn step_to<B: AudioBackend>(
    ctx: &mut SparkampCtx<B>,
    target: Option<usize>,
    gains: Gains,
) -> (r: Option<String>)
    requires
        old(ctx).wf(),
    ensures
        final(ctx).wf(),
        stepped(*final(ctx), *old(ctx), target, gains, r),
        final(ctx).shuffle_state == old(ctx).shuffle_state,
{
    ctx.last_known_duration = None;
    let was_playing = ctx.player.state() != PlayerState::Stopped;
    ctx.player.set_stop_after_current(false);
    assert(disarmed(ctx.player, old(ctx).player));
    let i: usize = match target {
        Some(i) => i,
        None => return None,
    };
    if !ctx.playlist.jump_to(i) {
        return None;
    }
    assert(ctx.playlist@.current_row() == Some(old(ctx).playlist@.rows[i as int]));
    if was_playing {
        start_current(ctx, gains)
    } else {
        let uri = match ctx.playlist.current() {
            Some(t) => path_uri(t.path.as_str()),
            None => "".to_owned(),
        };
        load_or_report(&mut ctx.player, uri.as_str())
    }
}

/// Steps to the next track, which `target` names; under shuffle it goes into the
/// history.
pub fn sparkamp_nav_next<B: AudioBackend>(
    ctx: Option<&mut SparkampCtx<B>>,
    target: Option<usize>,
    gains: Gains,
) -> (r: Option<String>)
    requires
        ctx matches Some(c) ==> c.wf(),
    ensures
        ctx matches Some(c) ==> final(c).wf() && stepped_on(*final(c), *c, target, gains, r),
        ctx is None ==> r is None,
{
    let c = match ctx {
        Some(c) => c,
        None => return None,
    };
    let ghost before = *c;
    let r = step_to(c, target, gains);
    let ghost landed = *c;
    if let Some(i) = target {
        if c.shuffle_state.enabled && i < c.playlist.len() {
            c.shuffle_state.record_played(i);
        }
    }
    proof {
        lemma_stepped_whatever_history(landed, *c, before, target, gains, r);
    }
    r
}

/// What a step leaves says nothing of the shuffle history.
proof fn lemma_stepped_whatever_history<B: AudioBackend>(
    landed: SparkampCtx<B>,
    after: SparkampCtx<B>,
    before: SparkampCtx<B>,
    target: Option<usize>,
    gains: Gains,
    said: Option<String>,
)
    requires
        stepped(landed, before, target, gains, said),
        after == (SparkampCtx { shuffle_state: after.shuffle_state, ..landed }),
    ensures
        stepped(after, before, target, gains, said),
{
}

/// Whether a step back goes by the shuffle history.
pub open spec fn by_history(p: model::PlaylistView, position: u64, shuffle: ShuffleState) -> bool {
    p.rows.len() > 0 && position < RESTART_AFTER && shuffle.enabled
}

/// Where a step back leads: to the start of a track that has run five seconds,
/// else back through the shuffle history, or to the row before, which under
/// repeat of the list comes round to the last.
pub open spec fn prev_target(
    p: model::PlaylistView,
    position: u64,
    shuffle: ShuffleState,
    repeat: RepeatMode,
) -> Option<usize> {
    if p.rows.len() == 0 {
        None
    } else if position >= RESTART_AFTER {
        Some(p.current as usize)
    } else if shuffle.enabled {
        shuffle.earlier()
    } else if p.current > 0 {
        Some((p.current - 1) as usize)
    } else if repeat == RepeatMode::Playlist {
        Some((p.rows.len() - 1) as usize)
    } else {
        None
    }
}

/// Where a step back leads.
pub fn pick_prev<B: AudioBackend>(ctx: &SparkampCtx<B>, position: u64) -> (r: Option<usize>)
    ensures
        r == prev_target(
            ctx.playlist@,
            position,
            ctx.shuffle_state,
            ctx.config.playback.repeat_mode,
        ),
{
    let n: usize = ctx.playlist.len();
    let at: usize = ctx.playlist.current_index();
    if n == 0 {
        None
    } else if position >= RESTART_AFTER {
        Some(at)
    } else if ctx.shuffle_state.enabled {
        ctx.shuffle_state.earlier_row()
    } else if at > 0 {
        Some(at - 1)
    } else if ctx.config.playback.repeat_mode == RepeatMode::Playlist {
        Some(n - 1)
    } else {
        None
    }
}

/// Steps to the previous track, or restarts the current one. `position` is how
/// far it has run. Under shuffle the history's cursor moves, and nothing is
/// recorded.
pub fn sparkamp_nav_prev<B: AudioBackend>(
    ctx: Option<&mut SparkampCtx<B>>,
    position: u64,
    gains: Gains,
) -> (r: Option<String>)
    requires
        ctx matches Some(c) ==> c.wf(),
    ensures
        ctx matches Some(c) ==> final(c).wf() && stepped_back(*final(c), *c, position, gains, r),
        ctx is None ==> r is None,
{
    let c = match ctx {
        Some(c) => c,
        None => return None,
    };
    let target = pick_prev(c, position);
    let ghost before = *c;
    let r = step_to(c, target, gains);
    let ghost landed = *c;
    if c.playlist.len() > 0 && position < RESTART_AFTER && c.shuffle_state.enabled {
        c.shuffle_state.walk_back();
    }
    proof {
        lemma_stepped_whatever_history(landed, *c, before, target, gains, r);
    }
    r
}

/// A step back under shuffle takes back the step on before it, however the list
/// is ordered: it lands on the row that was played before, and the history keeps
/// both.
pub proof fn law_a_step_back_undoes_a_shuffled_step<B: AudioBackend>(
    before: SparkampCtx<B>,
    there: SparkampCtx<B>,
    back: SparkampCtx<B>,
    from: usize,
    to: usize,
    position: u64,
    gains: Gains,
    said: Option<String>,
    then: Option<String>,
)
    requires
        before.shuffle_state.enabled,
        before.shuffle_state.played().len() > 0,
        before.shuffle_state.played().last() == from,
        from < before.playlist@.rows.len(),
        to < before.playlist@.rows.len(),
        position < RESTART_AFTER,
        stepped_on(there, before, Some(to), gains, said),
        stepped_back(back, there, position, gains, then),
    ensures
        there.playlist@.current == to,
        back.playlist@.current == from,
        back.shuffle_state.played() == before.shuffle_state.played().push(to),
{
}

/// A row that can be played.
pub open spec fn playable(rows: Seq<model::TrackView>, row: usize) -> bool {
    row < rows.len() && !rows[row as int].broken
}

/// The first of several rows that can be played.
pub open spec fn first_playable(rows: Seq<model::TrackView>, upcoming: Seq<usize>) -> Option<usize>
    decreases upcoming.len(),
{
    if upcoming.len() == 0 {
        None
    } else if playable(rows, upcoming[0]) {
        Some(upcoming[0])
    } else {
        first_playable(rows, upcoming.drop_first())
    }
}

/// Whether the end of a track plays it again.
pub open spec fn loops(p: model::PlaylistView, repeat: RepeatMode) -> bool {
    repeat == RepeatMode::Song && 0 <= p.current < p.rows.len()
}

/// The queued entry that the end of a track is to take: the first that can be
/// played, and none under repeat of the song.
pub open spec fn drawn(p: model::PlaylistView, repeat: RepeatMode, q: Seq<u64>) -> Option<u64> {
    if loops(p, repeat) {
        None
    } else {
        queue::first_playable_id(p.rows, q)
    }
}

/// What follows a track that ended: the same one again under repeat of the song,
/// else the first queued entry that can be played, else the first of the upcoming
/// rows that can be.
pub open spec fn following(
    p: model::PlaylistView,
    repeat: RepeatMode,
    q: Seq<u64>,
    upcoming: Seq<usize>,
) -> Option<usize> {
    if loops(p, repeat) {
        Some(p.current as usize)
    } else {
        match queue::first_playable_id(p.rows, q) {
            Some(id) => Some(queue::row_of(p.rows, id).unwrap() as usize),
            None => first_playable(p.rows, upcoming),
        }
    }
}

/// The queued entry that the end of a track is to take.
pub fn pick_queued<B: AudioBackend>(ctx: &SparkampCtx<B>) -> (r: Option<u64>)
    ensures
        r == drawn(ctx.playlist@, ctx.config.playback.repeat_mode, ctx.queue@),
{
    let at: usize = ctx.playlist.current_index();
    if ctx.config.playback.repeat_mode == RepeatMode::Song && at < ctx.playlist.len() {
        None
    } else {
        ctx.queue.next_playable(&ctx.playlist)
    }
}

/// What follows a track that ended. `upcoming` are the rows that would, in turn,
/// were nothing queued.
pub fn pick_following<B: AudioBackend>(ctx: &SparkampCtx<B>, upcoming: &Vec<usize>) -> (r: Option<
    usize,
>)
    ensures
        r == following(ctx.playlist@, ctx.config.playback.repeat_mode, ctx.queue@, upcoming@),
        r matches Some(i) ==> i < ctx.playlist@.rows.len(),
{
    let at: usize = ctx.playlist.current_index();
    if ctx.config.playback.repeat_mode == RepeatMode::Song && at < ctx.playlist.len() {
        return Some(at);
    }
    if let Some(id) = ctx.queue.next_playable(&ctx.playlist) {
        proof {
            queue::lemma_first_playable_id(ctx.playlist@.rows, ctx.queue@);
            queue::lemma_row_of(ctx.playlist@.rows, id);
        }
        return ctx.playlist.row_of(id);
    }
    let mut k: usize = 0;
    assert(upcoming@.subrange(0, upcoming@.len() as int) =~= upcoming@);
    while k < upcoming.len()
        invariant
            k <= upcoming@.len(),
            following(ctx.playlist@, ctx.config.playback.repeat_mode, ctx.queue@, upcoming@)
                == first_playable(ctx.playlist@.rows, upcoming@),
            first_playable(ctx.playlist@.rows, upcoming@) == first_playable(
                ctx.playlist@.rows,
                upcoming@.subrange(k as int, upcoming@.len() as int),
            ),
        decreases upcoming@.len() - k,
    {
        let ghost rest = upcoming@.subrange(k as int, upcoming@.len() as int);
        assert(rest[0] == upcoming@[k as int]);
        assert(rest.drop_first() =~= upcoming@.subrange(k + 1, upcoming@.len() as int));
        if let Some(t) = ctx.playlist.track(upcoming[k]) {
            if !t.broken {
                return Some(upcoming[k]);
            }
        }
        k += 1;
    }
    None
}

/// What the end of a track leaves of the session it found. A stop that was armed
/// for it holds, once; otherwise the track that follows is played. One that was
/// queued leaves the queue, and under shuffle the row goes into the history.
pub open spec fn went_on<B: AudioBackend>(
    after: SparkampCtx<B>,
    before: SparkampCtx<B>,
    upcoming: Seq<usize>,
    gains: Gains,
    said: Option<String>,
) -> bool {
    let repeat = before.config.playback.repeat_mode;
    &&& after == (SparkampCtx {
        player: after.player,
        playlist: after.playlist,
        queue: after.queue,
        shuffle_state: after.shuffle_state,
        ..before
    })
    &&& if before.player.settings().stop_after_current {
        &&& disarmed(after.player, before.player)
        &&& stayed(after, before)
        &&& said is None
    } else {
        match following(before.playlist@, repeat, before.queue@, upcoming) {
            Some(i) => {
                &&& after.playlist@ == (model::PlaylistView {
                    current: i as int,
                    ..before.playlist@
                })
                &&& ffi::primed_saying(
                    after.player,
                    before.player,
                    model::uri_of(before.playlist@.rows[i as int].path),
                    ffi::gain_in(before.config.playback, gains),
                    said,
                )
                &&& match drawn(before.playlist@, repeat, before.queue@) {
                    Some(id) => after.queue@ == queue::toggled(before.queue@, id),
                    None => after.queue == before.queue,
                }
                &&& if before.shuffle_state.enabled {
                    after.shuffle_state.recorded(&before.shuffle_state, i)
                } else {
                    after.shuffle_state == before.shuffle_state
                }
            },
            None => after.player == before.player && stayed(after, before) && said is None,
        }
    }
}

/// Whether the list, the queue and the shuffle history stand as they did.
pub open spec fn stayed<B: AudioBackend>(after: SparkampCtx<B>, before: SparkampCtx<B>) -> bool {
    &&& after.playlist == before.playlist
    &&& after.queue == before.queue
    &&& after.shuffle_state == before.shuffle_state
}

/// Goes on to the track that follows the one that ended, and plays it: a queued
/// one first, which leaves the queue, else the first of `upcoming` that can be
/// played.
pub fn sparkamp_advance_after_eos<B: AudioBackend>(
    ctx: Option<&mut SparkampCtx<B>>,
    upcoming: &Vec<usize>,
    gains: Gains,
) -> (r: Option<String>)
    requires
        ctx matches Some(c) ==> c.wf(),
    ensures
        ctx is None ==> r is None,
        ctx matches Some(c) ==> final(c).wf() && went_on(*final(c), *c, upcoming@, gains, r),
{
    let c = match ctx {
        Some(c) => c,
        None => return None,
    };
    let ghost before = *c;
    if c.player.stop_after_current() {
        let _ = c.player.take_stop_after_current();
        return None;
    }
    let i: usize = match pick_following(c, upcoming) {
        Some(i) => i,
        None => return None,
    };
    if let Some(id) = pick_queued(c) {
        proof {
            queue::lemma_first_playable_id(before.playlist@.rows, before.queue@);
        }
        c.queue.dequeue(id);
        proof {
            queue::lemma_toggled_off(before.queue@, id);
            queue::lemma_fewer_live(before.queue@, c.queue@, c.playlist@.rows);
        }
    }
    let _ = c.playlist.jump_to(i);
    assert(c.playlist@.current_row() == Some(before.playlist@.rows[i as int]));
    let r = start_current(c, gains);
    if c.shuffle_state.enabled {
        c.shuffle_state.record_played(i);
    }
    r
}

/// An armed stop holds at the end of one track and of no more: whatever follows,
/// the list and the queue stay where they are and the player as it was, and the
/// end of the next track goes on.
pub proof fn law_an_armed_stop_holds_once<B: AudioBackend>(
    before: SparkampCtx<B>,
    mid: SparkampCtx<B>,
    after: SparkampCtx<B>,
    upcoming: Seq<usize>,
    gains: Gains,
    i: usize,
    held: Option<String>,
    said: Option<String>,
)
    requires
        before.player.settings().stop_after_current,
        went_on(mid, before, upcoming, gains, held),
        went_on(after, mid, upcoming, gains, said),
        following(
            before.playlist@,
            before.config.playback.repeat_mode,
            before.queue@,
            upcoming,
        ) == Some(i),
    ensures
        mid.playlist@ == before.playlist@,
        mid.queue@ == before.queue@,
        mid.player.settings().state == before.player.settings().state,
        after.playlist@.current == i,
{
}

/// One end of track in a run of them.
pub open spec fn ran<B: AudioBackend>(
    sessions: Seq<SparkampCtx<B>>,
    upcoming: Seq<Seq<usize>>,
    gains: Seq<Gains>,
    said: Seq<Option<String>>,
    k: int,
) -> bool {
    went_on(sessions[k + 1], sessions[k], upcoming[k], gains[k], said[k])
}

/// The queue goes ahead of shuffle and of the list order: whatever rows would
/// have followed, `n` ends of track play the first `n` queued entries that can be
/// played, in their order and each once, and take just those off the queue.
pub proof fn law_the_queue_is_drained_first<B: AudioBackend>(
    sessions: Seq<SparkampCtx<B>>,
    upcoming: Seq<Seq<usize>>,
    gains: Seq<Gains>,
    said: Seq<Option<String>>,
    n: int,
)
    requires
        sessions.len() == n + 1,
        sessions[0].wf(),
        0 <= n <= queue::playable_ids(sessions[0].playlist@.rows, sessions[0].queue@).len(),
        !sessions[0].player.settings().stop_after_current,
        sessions[0].config.playback.repeat_mode != RepeatMode::Song,
        forall|k: int| 0 <= k < n ==> #[trigger] ran(sessions, upcoming, gains, said, k),
    ensures
        ({
            let rows = sessions[0].playlist@.rows;
            let ids = queue::playable_ids(rows, sessions[0].queue@);
            &&& forall|k: int|
                0 <= k < n ==> #[trigger] queue::row_of(rows, ids[k]) == Some(
                    sessions[k + 1].playlist@.current,
                )
            &&& ids.no_duplicates()
            &&& sessions[n].playlist@.rows == rows
            &&& queue::playable_ids(rows, sessions[n].queue@) == ids.subrange(n, ids.len() as int)
            &&& forall|id: u64| #[trigger]
                sessions[n].queue@.contains(id) <==> sessions[0].queue@.contains(id) && !ids.subrange(
                    0,
                    n,
                ).contains(id)
        }),
    decreases n,
{
    let rows = sessions[0].playlist@.rows;
    let q = sessions[0].queue@;
    let ids = queue::playable_ids(rows, q);
    queue::lemma_playable_ids(rows, q);
    if n == 0 {
        assert(ids.subrange(0, ids.len() as int) =~= ids);
    } else {
        let fewer = sessions.drop_last();
        let m = n - 1;
        assert forall|k: int| 0 <= k < m implies #[trigger] ran(fewer, upcoming, gains, said, k) by {
            assert(ran(sessions, upcoming, gains, said, k));
        }
        law_the_queue_is_drained_first(fewer, upcoming, gains, said, m);
        lemma_run_keeps(fewer, upcoming, gains, said, m);
        assert(ran(sessions, upcoming, gains, said, m));
        let last = sessions[m];
        let left = ids.subrange(m, ids.len() as int);
        let id = ids[m];
        assert(left[0] == id);
        assert(queue::playable_ids(rows, last.queue@) == left);
        queue::lemma_first_taken(rows, last.queue@, id);
        queue::lemma_toggled_off(last.queue@, id);
        assert(left.drop_first() =~= ids.subrange(n, ids.len() as int));
        assert(ids.contains(id));
        queue::lemma_row_of(rows, id);
        model::lemma_rows_fit(sessions[0].playlist);
        assert forall|k: int| 0 <= k < n implies #[trigger] queue::row_of(rows, ids[k]) == Some(
            sessions[k + 1].playlist@.current,
        ) by {
            if k < m {
                assert(fewer[k + 1] == sessions[k + 1]);
            }
        }
        assert forall|x: u64| #[trigger]
            sessions[n].queue@.contains(x) <==> q.contains(x) && !ids.subrange(0, n).contains(x) by {
            let long = ids.subrange(0, n);
            let short = ids.subrange(0, m);
            assert(last.queue@.contains(x) <==> q.contains(x) && !short.contains(x));
            assert(long =~= short.push(id));
            assert(long.contains(x) <==> short.contains(x) || x == id) by {
                if short.contains(x) {
                    let j = choose|j: int| 0 <= j < short.len() && short[j] == x;
                    assert(long[j] == x);
                }
                if long.contains(x) {
                    let j = choose|j: int| 0 <= j < long.len() && long[j] == x;
                    if j < m {
                        assert(short[j] == x);
                    }
                }
                assert(long[m] == id);
            }
        }
    }
}

/// A run of ends of track, none of them stopped, keeps the rows and the repeat
/// mode, and arms no stop.
proof fn lemma_run_keeps<B: AudioBackend>(
    sessions: Seq<SparkampCtx<B>>,
    upcoming: Seq<Seq<usize>>,
    gains: Seq<Gains>,
    said: Seq<Option<String>>,
    n: int,
)
    requires
        0 <= n < sessions.len(),
        sessions[0].queue.wf(),
        !sessions[0].player.settings().stop_after_current,
        forall|k: int| 0 <= k < n ==> #[trigger] ran(sessions, upcoming, gains, said, k),
    ensures
        sessions[n].queue@.no_duplicates(),
        sessions[n].playlist@.rows == sessions[0].playlist@.rows,
        sessions[n].config == sessions[0].config,
        !sessions[n].player.settings().stop_after_current,
    decreases n,
{
    if n > 0 {
        lemma_run_keeps(sessions, upcoming, gains, said, n - 1);
        assert(ran(sessions, upcoming, gains, said, n - 1));
        let before = sessions[n - 1];
        queue::lemma_first_playable_id(before.playlist@.rows, before.queue@);
        match drawn(before.playlist@, before.config.playback.repeat_mode, before.queue@) {
            Some(id) => {
                queue::lemma_toggled_off(before.queue@, id);
            },
            None => {},
        }
    }
}

/// The number of a repeat mode.
pub open spec fn repeat_code(mode: RepeatMode) -> int {
    match mode {
        RepeatMode::Off => 0,
        RepeatMode::Song => 1,
        RepeatMode::Playlist => 2,
    }
}

pub fn sparkamp_get_repeat_mode<B: AudioBackend>(ctx: Option<&SparkampCtx<B>>) -> (r: i32)
    ensures
        r == (match ctx {
            Some(c) => repeat_code(c.config.playback.repeat_mode),
            None => 0,
        }),
{
    match ctx {
        Some(c) => match c.config.playback.repeat_mode {
            RepeatMode::Off => 0,
            RepeatMode::Song => 1,
            RepeatMode::Playlist => 2,
        },
        None => 0,
    }
}

/// Off, then one song, then the list, then off again.
pub fn sparkamp_cycle_repeat<B: AudioBackend>(ctx: Option<&mut SparkampCtx<B>>)
    ensures
        ctx matches Some(c) ==> *final(c) == (SparkampCtx {
            config: Config {
                playback: crate::config::PlaybackConfig {
                    repeat_mode: c.config.playback.repeat_mode.cycled(),
                    ..c.config.playback
                },
                ..c.config
            },
            ..*c
        }),
{
    if let Some(c) = ctx {
        c.config.playback.repeat_mode = c.config.playback.repeat_mode.cycle();
    }
}

pub fn sparkamp_get_shuffle<B: AudioBackend>(ctx: Option<&SparkampCtx<B>>) -> (r: i32)
    ensures
        r == (match ctx {
            Some(c) if c.shuffle_state.enabled => 1,
            _ => 0int,
        }),
{
    match ctx {
        Some(c) => if c.shuffle_state.enabled {
            1
        } else {
            0
        },
        None => 0,
    }
}

/// Switches shuffle over, in the settings too.
pub fn sparkamp_toggle_shuffle<B: AudioBackend>(ctx: Option<&mut SparkampCtx<B>>)
    ensures
        ctx matches Some(c) ==> {
            &&& final(c).shuffle_state.enabled == !c.shuffle_state.enabled
            &&& final(c).shuffle_state.played() == c.shuffle_state.played()
            &&& final(c).shuffle_state.back == c.shuffle_state.back
            &&& *final(c) == (SparkampCtx {
                shuffle_state: final(c).shuffle_state,
                config: Config {
                    playback: crate::config::PlaybackConfig {
                        shuffle_enabled: !c.shuffle_state.enabled,
                        ..c.config.playback
                    },
                    ..c.config
                },
                ..*c
            })
        },
{
    if let Some(c) = ctx {
        c.shuffle_state.toggle();
        c.config.playback.shuffle_enabled = c.shuffle_state.enabled;
    }
}

/// Brings the settings up to date before they are written; the volume already
/// is.
pub fn sparkamp_save_config<B: AudioBackend>(ctx: Option<&mut SparkampCtx<B>>)
    ensures
        ctx matches Some(c) ==> *final(c) == (SparkampCtx {
            config: Config {
                playback: crate::config::PlaybackConfig {
                    shuffle_enabled: c.shuffle_state.enabled,
                    ..c.config.playback
                },
                ..c.config
            },
            ..*c
        }),
{
    if let Some(c) = ctx {
        c.config.playback.shuffle_enabled = c.shuffle_state.enabled;
    }
}

/// Takes over the settings and the playlist that were read back, where they
/// could be, and applies their volume and shuffle at once. What was queued of the
/// old list goes.
pub fn sparkamp_load_config<B: AudioBackend>(
    ctx: Option<&mut SparkampCtx<B>>,
    config: Option<Config>,
    playlist: Option<Playlist>,
)
    requires
        ctx matches Some(c) ==> c.wf(),
        playlist matches Some(p) ==> p@.wf() && p@.room(p@.rows.len() as int),
    ensures
        ctx matches Some(c) ==> {
            &&& final(c).wf()
            &&& match playlist {
                Some(p) => ffi::queue::in_line(*final(c), p@, c.queue@),
                None => final(c).playlist == c.playlist && final(c).queue == c.queue,
            }
            &&& *final(c) == (SparkampCtx {
                player: final(c).player,
                playlist: final(c).playlist,
                config: final(c).config,
                shuffle_state: final(c).shuffle_state,
                queue: final(c).queue,
                ..*c
            })
            &&& match config {
                Some(set) => {
                    &&& final(c).config == set
                    &&& final(c).shuffle_state.enabled == set.playback.shuffle_enabled
                    &&& final(c).shuffle_state.played() == c.shuffle_state.played()
                    &&& final(c).shuffle_state.back == c.shuffle_state.back
                    &&& final(c).player.settings() == (engine::Settings {
                        volume: backend::clamped(set.playback.volume as int, 0, UNITY_PPB as int) as u64,
                        ..c.player.settings()
                    })
                    &&& final(c).player.level_in_step()
                },
                None => {
                    &&& final(c).config == c.config
                    &&& final(c).player == c.player
                    &&& final(c).shuffle_state == c.shuffle_state
                },
            }
        },
{
    if let Some(c) = ctx {
        if let Some(set) = config {
            let level: u64 = if set.playback.volume <= UNITY_PPB {
                set.playback.volume
            } else {
                UNITY_PPB
            };
            c.player.set_volume(level as i64);
            c.shuffle_state.enabled = set.playback.shuffle_enabled;
            c.config = set;
        }
        if let Some(p) = playlist {
            c.playlist = p;
            sync_queue_to_playlist(c);
        }
    }
}

/// The entry whose length is to be probed in the background: its id, which the
/// result is to carry, and its path.
pub fn sparkamp_probe_duration<B: AudioBackend>(ctx: Option<&SparkampCtx<B>>, index: i32) -> (r:
    Option<(u64, String)>)
    ensures
        match r {
            Some((id, path)) => ctx matches Some(c) && has_row(c.playlist@, index) && id
                == c.playlist@.rows[index as int].id && path@ == c.playlist@.rows[index as int].path,
            None => ctx matches Some(c) ==> !has_row(c.playlist@, index),
        },
{
    let c = match ctx {
        Some(c) => c,
        None => return None,
    };
    let i: usize = match row_at(c, index) {
        Some(i) => i,
        None => return None,
    };
    match c.playlist.track(i) {
        Some(t) => Some((t.id, t.path.clone())),
        None => None,
    }
}

/// A step back without shuffle, early in a track, goes to the row before: row by row up
/// the list, and from the first row nowhere, or to the last where the list repeats.
/// Once a track has run five seconds, or where there is no list, the row stays.
pub proof fn law_a_step_back_goes_one_row_up<B: AudioBackend>(
    after: SparkampCtx<B>,
    before: SparkampCtx<B>,
    position: u64,
    gains: Gains,
    said: Option<String>,
)
    requires
        stepped_back(after, before, position, gains, said),
        0 <= before.playlist@.current < before.playlist@.rows.len(),
    ensures
        ({
            let c = before.playlist@.current;
            let n = before.playlist@.rows.len();
            let early = position < 5_000_000_000;
            &&& after.playlist@.rows == before.playlist@.rows
            &&& !early ==> after.playlist@.current == c
            &&& early && !before.shuffle_state.enabled && c > 0 ==> after.playlist@.current + 1 == c
            &&& early && !before.shuffle_state.enabled && c == 0 ==> after.playlist@.current == (
            if before.config.playback.repeat_mode == RepeatMode::Playlist {
                n - 1
            } else {
                0
            })
            &&& !before.shuffle_state.enabled ==> after.shuffle_state == before.shuffle_state
        }),
{
    model::lemma_rows_fit(before.playlist);
}

/// One step back in a run of them.
pub open spec fn ran_back<B: AudioBackend>(
    sessions: Seq<SparkampCtx<B>>,
    positions: Seq<u64>,
    gains: Seq<Gains>,
    said: Seq<Option<String>>,
    k: int,
) -> bool {
    stepped_back(sessions[k + 1], sessions[k], positions[k], gains[k], said[k])
}

/// From any row, without shuffle and each time early in a track, as many steps back as
/// there are rows above it pass each of those once, from the nearest up to the first.
pub proof fn law_steps_back_pass_every_row_above<B: AudioBackend>(
    sessions: Seq<SparkampCtx<B>>,
    positions: Seq<u64>,
    gains: Seq<Gains>,
    said: Seq<Option<String>>,
    k: int,
)
    requires
        0 <= k <= sessions[0].playlist@.current < sessions[0].playlist@.rows.len(),
        sessions.len() == sessions[0].playlist@.current + 1,
        !sessions[0].shuffle_state.enabled,
        forall|i: int| 0 <= i < k ==> #[trigger] ran_back(sessions, positions, gains, said, i),
        forall|i: int| 0 <= i < k ==> #[trigger] positions[i] < 5_000_000_000,
    ensures
        sessions[k].playlist@.current == sessions[0].playlist@.current - k,
        sessions[k].playlist@.rows == sessions[0].playlist@.rows,
        !sessions[k].shuffle_state.enabled,
    decreases k,
{
    if k > 0 {
        law_steps_back_pass_every_row_above(sessions, positions, gains, said, k - 1);
        assert(ran_back(sessions, positions, gains, said, k - 1));
        assert(positions[k - 1] < 5_000_000_000);
        law_a_step_back_goes_one_row_up(
            sessions[k],
            sessions[k - 1],
            positions[k - 1],
            gains[k - 1],
            said[k - 1],
        );
    }
}

/// A step back under shuffle, early in a track, goes to the row that was played before,
/// and nowhere where none was; the history itself stays.
pub proof fn law_a_shuffled_step_back_goes_by_the_history<B: AudioBackend>(
    after: SparkampCtx<B>,
    before: SparkampCtx<B>,
    position: u64,
    gains: Gains,
    said: Option<String>,
)
    requires
        stepped_back(after, before, position, gains, said),
        before.shuffle_state.enabled,
        before.shuffle_state.back == 0,
        position < 5_000_000_000,
        before.playlist@.rows.len() > 0,
    ensures
        ({
            let played = before.shuffle_state.played();
            &&& after.shuffle_state.played() == played
            &&& played.len() >= 2 && played[played.len() - 2] < before.playlist@.rows.len()
                ==> after.playlist@.current == played[played.len() - 2]
            &&& played.len() < 2 ==> after.playlist == before.playlist
        }),
{
}

/// A step on goes to the row that was picked and nowhere else; one that was not there
/// leaves the row. Where something played, the row plays; where nothing did, it is
/// loaded and nothing starts. Either way what is loaded is what is then current, and a
/// stop armed for the end of the track before is given up.
pub proof fn law_a_step_on_loads_what_it_lands_on<B: AudioBackend>(
    after: SparkampCtx<B>,
    before: SparkampCtx<B>,
    target: Option<usize>,
    gains: Gains,
    said: Option<String>,
)
    requires
        stepped_on(after, before, target, gains, said),
    ensures
        after.playlist@.rows == before.playlist@.rows,
        after.queue == before.queue,
        after.last_known_duration is None,
        !after.player.settings().stop_after_current,
        target matches Some(i) ==> {
            &&& i < before.playlist@.rows.len() ==> {
                &&& after.playlist@.current == i
                &&& after.playlist@.current_row() matches Some(t)
                &&& before.player.settings().state != PlayerState::Stopped ==> exists|
                    mid: Player<B>,
                    gain: Option<i64>,
                | #[trigger]
                    ffi::primed_saying(after.player, mid, model::uri_of(t.path), gain, said)
                &&& before.player.settings().state == PlayerState::Stopped ==> {
                    &&& exists|mid: Player<B>| #[trigger]
                        ffi::loaded_saying(after.player, mid, model::uri_of(t.path), said)
                    &&& after.player.settings().state == PlayerState::Stopped
                }
                &&& before.shuffle_state.enabled ==> after.shuffle_state.played()
                    == before.shuffle_state.played().push(i)
                &&& !before.shuffle_state.enabled ==> after.shuffle_state == before.shuffle_state
            }
            &&& i >= before.playlist@.rows.len() ==> after.playlist == before.playlist
                && after.player.audio() == before.player.audio()
        },
        target is None ==> after.playlist == before.playlist && after.player.audio()
            == before.player.audio(),
{
}

/// What a step back leads to is what it loads: the row that is then current.
pub proof fn law_a_step_back_loads_what_it_lands_on<B: AudioBackend>(
    after: SparkampCtx<B>,
    before: SparkampCtx<B>,
    position: u64,
    gains: Gains,
    said: Option<String>,
)
    requires
        stepped_back(after, before, position, gains, said),
        after.playlist@.current != before.playlist@.current || position >= 5_000_000_000,
        0 <= before.playlist@.current < before.playlist@.rows.len(),
        before.player.settings().state != PlayerState::Stopped,
    ensures
        after.playlist@.current_row() matches Some(t) && exists|mid: Player<B>, gain: Option<i64>|
         #[trigger]
            ffi::primed_saying(after.player, mid, model::uri_of(t.path), gain, said),
{
    model::lemma_rows_fit(before.playlist);
}

/// At the end of a track under repeat of the song the same row plays again, whatever is
/// queued or would follow; otherwise, with nothing queued, the first of the rows that
/// would follow and can be played does, and those before it are passed over. What plays
/// is what is then current. Where none can be played everything stays.
pub proof fn law_the_end_of_a_track_goes_on<B: AudioBackend>(
    after: SparkampCtx<B>,
    before: SparkampCtx<B>,
    upcoming: Seq<usize>,
    gains: Gains,
    said: Option<String>,
)
    requires
        went_on(after, before, upcoming, gains, said),
        !before.player.settings().stop_after_current,
        0 <= before.playlist@.current < before.playlist@.rows.len(),
    ensures
        ({
            let rows = before.playlist@.rows;
            let song = before.config.playback.repeat_mode == RepeatMode::Song;
            let plays = exists|mid: Player<B>, gain: Option<i64>| #[trigger]
                ffi::primed_saying(
                    after.player,
                    mid,
                    model::uri_of(rows[after.playlist@.current].path),
                    gain,
                    said,
                );
            &&& after.playlist@.rows == rows
            &&& song ==> after.playlist@.current == before.playlist@.current && after.queue
                == before.queue && plays
            &&& !song && before.queue@.len() == 0 ==> {
                &&& after.queue == before.queue
                &&& (exists|k: int| 0 <= k < upcoming.len() && can_play(rows, #[trigger] upcoming[k]))
                    ==> {
                    &&& plays
                    &&& exists|k: int|
                        {
                            &&& 0 <= k < upcoming.len()
                            &&& #[trigger] upcoming[k] == after.playlist@.current
                            &&& can_play(rows, upcoming[k])
                            &&& forall|j: int| 0 <= j < k ==> !can_play(rows, #[trigger] upcoming[j])
                        }
                }
                &&& (forall|k: int|
                    0 <= k < upcoming.len() ==> !can_play(rows, #[trigger] upcoming[k])) ==> {
                    &&& after.playlist == before.playlist
                    &&& after.player == before.player
                }
            }
        }),
{
    model::lemma_rows_fit(before.playlist);
    let rows = before.playlist@.rows;
    lemma_first_playable(rows, upcoming);
    assert(queue::playable_ids(rows, Seq::<u64>::empty()) =~= Seq::<u64>::empty());
    if before.queue@.len() == 0 {
        assert(before.queue@ =~= Seq::<u64>::empty());
    }
}

/// Whether a list has a row and it is not marked broken.
pub open spec fn can_play(rows: Seq<model::TrackView>, row: usize) -> bool {
    row < rows.len() && rows[row as int].broken == false
}

proof fn lemma_first_playable(rows: Seq<model::TrackView>, upcoming: Seq<usize>)
    ensures
        match first_playable(rows, upcoming) {
            Some(i) => exists|k: int|
                {
                    &&& 0 <= k < upcoming.len()
                    &&& #[trigger] upcoming[k] == i
                    &&& can_play(rows, upcoming[k])
                    &&& forall|j: int| 0 <= j < k ==> !can_play(rows, #[trigger] upcoming[j])
                },
            None => forall|k: int|
                0 <= k < upcoming.len() ==> !can_play(rows, #[trigger] upcoming[k]),
        },
    decreases upcoming.len(),
{
    if upcoming.len() > 0 {
        let rest = upcoming.drop_first();
        if playable(rows, upcoming[0]) {
            assert(can_play(rows, upcoming[0]));
        } else {
            lemma_first_playable(rows, rest);
            match first_playable(rows, rest) {
                Some(i) => {
                    let k = choose|k: int|
                        {
                            &&& 0 <= k < rest.len()
                            &&& #[trigger] rest[k] == i
                            &&& can_play(rows, rest[k])
                            &&& forall|j: int| 0 <= j < k ==> !can_play(rows, #[trigger] rest[j])
                        };
                    assert(upcoming[k + 1] == i);
                    assert forall|j: int| 0 <= j < k + 1 implies !can_play(
                        rows,
                        #[trigger] upcoming[j],
                    ) by {
                        if j > 0 {
                            assert(rest[j - 1] == upcoming[j]);
                        }
                    }
                },
                None => {
                    assert forall|k: int| 0 <= k < upcoming.len() implies !can_play(
                        rows,
                        #[trigger] upcoming[k],
                    ) by {
                        if k > 0 {
                            assert(rest[k - 1] == upcoming[k]);
                        }
                    }
                },
            }
        }
    }
}

/// Whatever plays next is primed with the gain that the settings ask for: the album's
/// with source album, the track's with source track, and with the automatic one the
/// track's under shuffle and the album's otherwise, whatever the other gain is.
pub proof fn law_what_follows_is_primed_with_the_gain_asked_for<B: AudioBackend>(
    after: SparkampCtx<B>,
    before: SparkampCtx<B>,
    upcoming: Seq<usize>,
    gains: Gains,
    said: Option<String>,
    i: usize,
)
    requires
        went_on(after, before, upcoming, gains, said),
        !before.player.settings().stop_after_current,
        following(
            before.playlist@,
            before.config.playback.repeat_mode,
            before.queue@,
            upcoming,
        ) == Some(i),
    ensures
        ({
            let set = before.config.playback;
            let album = set.replaygain.source == RgSource::Album || (set.replaygain.source
                == RgSource::Automatic && !set.shuffle_enabled);
            ffi::primed_saying(
                after.player,
                before.player,
                model::uri_of(before.playlist@.rows[i as int].path),
                if album {
                    gains.album
                } else {
                    gains.track
                },
                said,
            )
        }),
{
}

/// What a text names is loaded: the text itself, but for an absolute path, which is
/// loaded as the file there.
pub proof fn law_a_path_is_loaded_as_its_file(text: Seq<char>)
    ensures
        text.len() > 0 && text[0] == '/' ==> uri_given(text) == model::uri_of(text),
        text.len() == 0 || text[0] != '/' ==> uri_given(text) == text,
{
}

/// A seek to a fraction of a track goes as far into it as the fraction says: to its
/// start at nothing or less, to its end at all or more, and never past it.
pub proof fn law_a_seek_stays_in_the_track<B: AudioBackend>(
    after: SparkampCtx<B>,
    before: SparkampCtx<B>,
    fraction: i64,
    total: u64,
)
    requires
        sought_within(after, before, fraction, Some(total)),
    ensures
        exists|to: u64, r: Result<(), BackendError>|
            {
                &&& #[trigger] B::step(
                    before.player.audio(),
                    Call::Seek(to, r),
                    after.player.audio(),
                )
                &&& to <= total
                &&& fraction <= 0 ==> to == 0
                &&& fraction >= 1_000_000_000 ==> to == total
                &&& 0 <= fraction <= 1_000_000_000 ==> to * 1_000_000_000 <= total * fraction < (to
                    + 1) * 1_000_000_000
            },
        after.playlist == before.playlist,
        after.player.settings() == before.player.settings(),
{
    let f = backend::clamped(fraction as int, 0, UNITY_PPB as int) as u64;
    let r = choose|r: Result<(), BackendError>| #[trigger]
        B::step(
            before.player.audio(),
            Call::Seek(ffi::share_of(total, f) as u64, r),
            after.player.audio(),
        );
    ffi::law_a_share_is_the_part_it_names(total, f);
    let to = ffi::share_of(total, f) as u64;
    assert(B::step(before.player.audio(), Call::Seek(to, r), after.player.audio()));
}

/// The length shown is the one reported, where there is one; else the last that was;
/// else the current row's.
pub proof fn law_the_length_shown_is_the_best_known(
    reported: Option<u64>,
    last: Option<u64>,
    p: model::PlaylistView,
)
    ensures
        reported is Some ==> shown_duration(reported, last, p) == reported,
        reported is None && last is Some ==> shown_duration(reported, last, p) == last,
        reported is None && last is None && 0 <= p.current < p.rows.len() ==> shown_duration(
            reported,
            last,
            p,
        ) == p.rows[p.current].duration,
        reported is None && last is None && !(0 <= p.current < p.rows.len()) ==> shown_duration(
            reported,
            last,
            p,
        ) is None,
{
}

/// The numbers by which states and repeat modes cross are told apart, and nought stands
/// for a player that is stopped and for no repeat.
pub proof fn law_states_and_modes_cross_by_their_numbers(
    s: PlayerState,
    t: PlayerState,
    m: RepeatMode,
    n: RepeatMode,
)
    ensures
        state_code(s) == state_code(t) ==> s == t,
        repeat_code(m) == repeat_code(n) ==> m == n,
        (state_code(s) == 0) == (s == PlayerState::Stopped),
        (state_code(s) == 1) == (s == PlayerState::Playing),
        (state_code(s) == 2) == (s == PlayerState::Paused),
        (repeat_code(m) == 0) == (m == RepeatMode::Off),
        (repeat_code(m) == 1) == (m == RepeatMode::Song),
        (repeat_code(m) == 2) == (m == RepeatMode::Playlist),
        repeat_code(m.cycled()) == (repeat_code(m) + 1) % 3,
{
}

/// A press of play where nothing played loads and plays the current row, puts it last in
/// the shuffle history and gives up an armed stop; where something played or was paused
/// it only goes on, and an armed stop stands.
pub proof fn law_play_starts_the_current_row_or_goes_on<B: AudioBackend>(
    after: SparkampCtx<B>,
    before: SparkampCtx<B>,
    said: Option<String>,
)
    requires
        play_pressed(after, before, said),
    ensures
        after.playlist == before.playlist,
        after.queue == before.queue,
        before.player.settings().state == PlayerState::Stopped
            ==> !after.player.settings().stop_after_current,
        before.player.settings().state == PlayerState::Stopped ==> match before.playlist@.current_row() {
            Some(t) => {
                &&& after.shuffle_state.played() == before.shuffle_state.played().push(
                    before.playlist@.current as usize,
                )
                &&& exists|mid: Player<B>| #[trigger]
                    ffi::started_saying(after.player, mid, model::uri_of(t.path), said)
            },
            None => after.shuffle_state == before.shuffle_state,
        },
        before.player.settings().state != PlayerState::Stopped ==> {
            &&& after.shuffle_state == before.shuffle_state
            &&& after.player.settings().stop_after_current
                == before.player.settings().stop_after_current
            &&& exists|r: Result<(), BackendError>| #[trigger]
                after.player.play_settled(&before.player, r)
        },
{
}

/// A press of stop that the audio path follows leaves the player stopped, silent on the
/// visualizers and with no stop armed, whatever it did before.
pub proof fn law_stop_leaves_nothing_running<B: AudioBackend>(after: Player<B>, before: Player<B>)
    requires
        stop_pressed(after, before),
    ensures
        !after.settings().stop_after_current,
        after.settings().state == PlayerState::Stopped || after.settings().state
            == before.settings().state,
        after.settings().state != before.settings().state ==> {
            &&& after.audio().transport() == PlayerState::Stopped
            &&& after.settings().fadeout is None
            &&& after.visual().scope().len() == 0
            &&& !after.visual().has_frame()
        },
        after.settings().volume == before.settings().volume,
{
}

/// What follows the end of a track is recorded while shuffle is on, as the last that was
/// played; with shuffle off the history is left alone.
pub proof fn law_what_follows_is_recorded_under_shuffle<B: AudioBackend>(
    after: SparkampCtx<B>,
    before: SparkampCtx<B>,
    upcoming: Seq<usize>,
    gains: Gains,
    said: Option<String>,
)
    requires
        went_on(after, before, upcoming, gains, said),
        !before.player.settings().stop_after_current,
    ensures
        !before.shuffle_state.enabled ==> after.shuffle_state == before.shuffle_state,
        before.shuffle_state.enabled && after.playlist@.current != before.playlist@.current ==> {
            &&& after.shuffle_state.played().len() == before.shuffle_state.played().len() + 1
            &&& after.shuffle_state.played().last() == after.playlist@.current
            &&& after.shuffle_state.enabled
        },
{
}

} // verus!
