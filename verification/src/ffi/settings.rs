//! Settings.

use crate::config;
use crate::config::{
    Config, PlayStatsMode, PlaylistAddBehavior, PlaylistFormat, RgSource, DEFAULT_FADEOUT_SECS,
    FADEOUT_SECS_MAX, FADEOUT_SECS_MIN,
};
use crate::disc_meta;
use crate::disc_meta::is_unset_email;
use crate::engine;
use crate::engine::backend;
use crate::engine::backend::{AudioBackend, Timeline, UNITY_PPB};
use crate::engine::{PlayerState, RgChain};
use crate::ffi;
use crate::ffi::{start_current, Gains, SparkampCtx};
use crate::model;
use crate::text;
use crate::text::{c_or_null, trim};
use vstd::prelude::*;

verus! {

/// How many audio file extensions there are.
pub fn sparkamp_audio_extension_count(extensions: &Vec<String>) -> (r: usize)
    ensures
        r == extensions@.len(),
{
    extensions.len()
}

/// One of the audio file extensions; `None` out of range.
pub fn sparkamp_audio_extension(extensions: &Vec<String>, idx: i32) -> (r: Option<String>)
    ensures
        match r {
            Some(s) => 0 <= idx < extensions@.len() && s@ == extensions@[idx as int]@,
            None => !(0 <= idx < extensions@.len()),
        },
{
    if idx < 0 {
        return None;
    }
    let i: usize = idx as usize;
    if i < extensions.len() {
        Some(extensions[i].clone())
    } else {
        None
    }
}

/// The number of what adding does.
pub open spec fn add_code(b: PlaylistAddBehavior) -> int {
    match b {
        PlaylistAddBehavior::Append => 0,
        PlaylistAddBehavior::Replace => 1,
    }
}

/// What adding does, by its number; any other number appends.
pub open spec fn add_behavior(value: i32) -> PlaylistAddBehavior {
    if value == 1 {
        PlaylistAddBehavior::Replace
    } else {
        PlaylistAddBehavior::Append
    }
}

/// The number of a playlist format.
pub open spec fn format_code(f: PlaylistFormat) -> int {
    match f {
        PlaylistFormat::M3u8 => 0,
        PlaylistFormat::M3u => 1,
    }
}

/// The playlist format of a number.
pub open spec fn format_of(value: i32) -> PlaylistFormat {
    if value == 1 {
        PlaylistFormat::M3u
    } else {
        PlaylistFormat::M3u8
    }
}

/// The number of a gain source.
pub open spec fn source_code(s: RgSource) -> int {
    match s {
        RgSource::Track => 0,
        RgSource::Album => 1,
        RgSource::Automatic => 2,
    }
}

/// The gain source of a number; any other number is automatic.
pub open spec fn source_of(value: i32) -> RgSource {
    if value == 0 {
        RgSource::Track
    } else if value == 1 {
        RgSource::Album
    } else {
        RgSource::Automatic
    }
}

/// The number of what the play threshold is measured in.
pub open spec fn stats_code(m: PlayStatsMode) -> int {
    match m {
        PlayStatsMode::Seconds => 0,
        PlayStatsMode::Percent => 1,
    }
}

/// What the play threshold is measured in, by its number.
pub open spec fn stats_mode(value: u32) -> PlayStatsMode {
    if value == 1 {
        PlayStatsMode::Percent
    } else {
        PlayStatsMode::Seconds
    }
}

/// The ripping presets: two variable rates and one constant one; any other
/// number is the second.
pub open spec fn rip_preset(preset: i32) -> u8 {
    if preset == 0 {
        0
    } else if preset == 2 {
        2
    } else {
        1
    }
}

/// Every number that stands for a choice reads back as that number.
pub proof fn law_choices_read_back(
    add: PlaylistAddBehavior,
    format: PlaylistFormat,
    source: RgSource,
    mode: PlayStatsMode,
    preset: u8,
)
    ensures
        add_behavior(add_code(add) as i32) == add,
        format_of(format_code(format) as i32) == format,
        source_of(source_code(source) as i32) == source,
        stats_mode(stats_code(mode) as u32) == mode,
        preset <= 2 ==> rip_preset(preset as i32) == preset,
{
}

/// What adding does to the list: 0 appends, 1 replaces.
pub fn sparkamp_get_playlist_add_behavior<B: AudioBackend>(ctx: Option<&SparkampCtx<B>>) -> (r: i32)
    ensures
        r == (match ctx {
            Some(c) => add_code(c.config.behavior.playlist_add_behavior),
            None => 0,
        }),
{
    match ctx {
        Some(c) => match c.config.behavior.playlist_add_behavior {
            PlaylistAddBehavior::Append => 0,
            PlaylistAddBehavior::Replace => 1,
        },
        None => 0,
    }
}

pub fn sparkamp_set_playlist_add_behavior<B: AudioBackend>(ctx: Option<&mut SparkampCtx<B>>, value: i32)
    ensures
        ctx matches Some(c) ==> *final(c) == (SparkampCtx {
            config: Config { behavior: config::BehaviorConfig { playlist_add_behavior: add_behavior(value), ..c.config.behavior }, ..c.config },
            ..*c
        }),
{
    if let Some(c) = ctx {
        c.config.behavior.playlist_add_behavior = if value == 1 {
            PlaylistAddBehavior::Replace
        } else {
            PlaylistAddBehavior::Append
        };
    }
}

/// The format of a new playlist file: 0 is m3u8, 1 is m3u.
pub fn sparkamp_get_playlist_format<B: AudioBackend>(ctx: Option<&SparkampCtx<B>>) -> (r: i32)
    ensures
        r == (match ctx {
            Some(c) => format_code(c.config.media_library.playlist_format),
            None => 0,
        }),
{
    match ctx {
        Some(c) => match c.config.media_library.playlist_format {
            PlaylistFormat::M3u8 => 0,
            PlaylistFormat::M3u => 1,
        },
        None => 0,
    }
}

pub fn sparkamp_set_playlist_format<B: AudioBackend>(ctx: Option<&mut SparkampCtx<B>>, value: i32)
    ensures
        ctx matches Some(c) ==> *final(c) == (SparkampCtx {
            config: Config { media_library: config::MediaLibraryConfig { playlist_format: format_of(value), ..c.config.media_library }, ..c.config },
            ..*c
        }),
{
    if let Some(c) = ctx {
        c.config.media_library.playlist_format = if value == 1 {
            PlaylistFormat::M3u
        } else {
            PlaylistFormat::M3u8
        };
    }
}

/// The address that disc data are submitted under, empty where none is set and
/// `None` where it cannot cross. `retired` is the address that older settings
/// came with.
pub fn sparkamp_get_gnudb_email<B: AudioBackend>(ctx: Option<&SparkampCtx<B>>, retired: &str) -> (r:
    Option<String>)
    ensures
        ctx is None ==> r is None,
        ctx matches Some(c) ==> text::crosses(
            if disc_meta::no_address(c.config.disc.gnudb_email@, retired@) {
                Seq::empty()
            } else {
                c.config.disc.gnudb_email@
            },
            r,
        ),
{
    match ctx {
        Some(c) => {
            if is_unset_email(c.config.disc.gnudb_email.as_str(), retired) {
                let none = String::new();
                assert(none@ =~= Seq::empty());
                Some(none)
            } else {
                c_or_null(c.config.disc.gnudb_email.as_str())
            }
        },
        None => None,
    }
}

/// Sets the address; a blank one is ignored.
pub fn sparkamp_set_gnudb_email<B: AudioBackend>(
    ctx: Option<&mut SparkampCtx<B>>,
    email: Option<&str>,
)
    ensures
        ctx matches Some(c) ==> {
            &&& final(c).config.disc.gnudb_email@ == (if text::trimmed(text::given(email)).len() > 0 {
                text::trimmed(text::given(email))
            } else {
                c.config.disc.gnudb_email@
            })
            &&& *final(c) == (SparkampCtx {
                config: Config {
                    disc: config::DiscConfig {
                        gnudb_email: final(c).config.disc.gnudb_email,
                        ..c.config.disc
                    },
                    ..c.config
                },
                ..*c
            })
        },
{
    match (ctx, email) {
        (Some(c), Some(e)) => {
            let s = trim(e);
            if s.as_str().unicode_len() > 0 {
                c.config.disc.gnudb_email = s;
            }
        },
        _ => {},
    }
}

/// Whether disc data are submitted for a check only, not to be published.
pub fn sparkamp_get_gnudb_submit_test<B: AudioBackend>(ctx: Option<&SparkampCtx<B>>) -> (r: bool)
    ensures
        r == (match ctx {
            Some(c) => c.config.disc.gnudb_submit_mode_test,
            None => true,
        }),
{
    match ctx {
        Some(c) => c.config.disc.gnudb_submit_mode_test,
        None => true,
    }
}

pub fn sparkamp_set_gnudb_submit_test<B: AudioBackend>(ctx: Option<&mut SparkampCtx<B>>, value: bool)
    ensures
        ctx matches Some(c) ==> *final(c) == (SparkampCtx {
            config: Config { disc: config::DiscConfig { gnudb_submit_mode_test: value, ..c.config.disc }, ..c.config },
            ..*c
        }),
{
    if let Some(c) = ctx {
        c.config.disc.gnudb_submit_mode_test = value;
    }
}

/// Whether the time counter shows time left rather than time played.
pub fn sparkamp_get_show_remaining<B: AudioBackend>(ctx: Option<&SparkampCtx<B>>) -> (r: bool)
    ensures
        r == (match ctx {
            Some(c) => c.config.display.time_mode@ == "remaining"@,
            None => false,
        }),
{
    match ctx {
        Some(c) => c.config.display.show_remaining(),
        None => false,
    }
}

pub fn sparkamp_set_show_remaining<B: AudioBackend>(ctx: Option<&mut SparkampCtx<B>>, value: bool)
    ensures
        ctx matches Some(c) ==> {
            &&& final(c).config.display.time_mode@ == (if value {
                "remaining"@
            } else {
                "elapsed"@
            })
            &&& *final(c) == (SparkampCtx {
                config: Config { display: final(c).config.display, ..c.config },
                ..*c
            })
        },
{
    if let Some(c) = ctx {
        c.config.display.set_show_remaining(value);
    }
}

/// Whether playback stops at the end of the current track. Not kept between
/// runs.
pub fn sparkamp_get_stop_after_current<B: AudioBackend>(ctx: Option<&SparkampCtx<B>>) -> (r: bool)
    ensures
        r == (match ctx {
            Some(c) => c.player.settings().stop_after_current,
            None => false,
        }),
{
    match ctx {
        Some(c) => c.player.stop_after_current(),
        None => false,
    }
}

pub fn sparkamp_set_stop_after_current<B: AudioBackend>(
    ctx: Option<&mut SparkampCtx<B>>,
    value: bool,
)
    ensures
        ctx matches Some(c) ==> {
            &&& final(c).player.settings() == (engine::Settings {
                stop_after_current: value,
                ..c.player.settings()
            })
            &&& final(c).player.audio() == c.player.audio()
            &&& final(c).player.visual() == c.player.visual()
            &&& *final(c) == (SparkampCtx { player: final(c).player, ..*c })
        },
{
    if let Some(c) = ctx {
        c.player.set_stop_after_current(value);
    }
}

/// A fadeout moved into the range that can be set.
pub open spec fn fadeout_clamped(value: u32) -> u32 {
    if value < FADEOUT_SECS_MIN {
        FADEOUT_SECS_MIN
    } else if value > FADEOUT_SECS_MAX {
        FADEOUT_SECS_MAX
    } else {
        value
    }
}

/// How long a stop with fadeout takes, in seconds.
pub fn sparkamp_get_fadeout_secs<B: AudioBackend>(ctx: Option<&SparkampCtx<B>>) -> (r: u32)
    ensures
        r == (match ctx {
            Some(c) => c.config.playback.fadeout_secs,
            None => DEFAULT_FADEOUT_SECS,
        }),
{
    match ctx {
        Some(c) => c.config.playback.fadeout_secs,
        None => DEFAULT_FADEOUT_SECS,
    }
}

pub fn sparkamp_set_fadeout_secs<B: AudioBackend>(ctx: Option<&mut SparkampCtx<B>>, value: u32)
    ensures
        ctx matches Some(c) ==> *final(c) == (SparkampCtx {
            config: Config { playback: config::PlaybackConfig { fadeout_secs: fadeout_clamped(value), ..c.config.playback }, ..c.config },
            ..*c
        }),
{
    if let Some(c) = ctx {
        c.config.playback.fadeout_secs = if value < FADEOUT_SECS_MIN {
            FADEOUT_SECS_MIN
        } else if value > FADEOUT_SECS_MAX {
            FADEOUT_SECS_MAX
        } else {
            value
        };
    }
}

/// Where ripped files go, empty where nothing is set and `None` where that cannot
/// cross.
pub fn sparkamp_get_rip_dest<B: AudioBackend>(ctx: Option<&SparkampCtx<B>>) -> (r: Option<String>)
    ensures
        ctx is None ==> r is None,
        ctx matches Some(c) ==> text::crosses(
            match c.config.disc.rip_dest_dir {
                Some(dir) => dir@,
                None => Seq::empty(),
            },
            r,
        ),
{
    match ctx {
        Some(c) => match &c.config.disc.rip_dest_dir {
            Some(dir) => c_or_null(dir.as_str()),
            None => {
                let none = String::new();
                assert(none@ =~= Seq::empty());
                Some(none)
            },
        },
        None => None,
    }
}

/// Sets where ripped files go; a blank text unsets it.
pub fn sparkamp_set_rip_dest<B: AudioBackend>(ctx: Option<&mut SparkampCtx<B>>, dir: Option<&str>)
    ensures
        ctx matches Some(c) ==> {
            &&& match dir {
                None => final(c).config.disc.rip_dest_dir == c.config.disc.rip_dest_dir,
                Some(d) => match final(c).config.disc.rip_dest_dir {
                    Some(s) => s@ == text::trimmed(d@) && s@.len() > 0,
                    None => text::trimmed(d@).len() == 0,
                },
            }
            &&& *final(c) == (SparkampCtx {
                config: Config {
                    disc: config::DiscConfig {
                        rip_dest_dir: final(c).config.disc.rip_dest_dir,
                        ..c.config.disc
                    },
                    ..c.config
                },
                ..*c
            })
        },
{
    match (ctx, dir) {
        (Some(c), Some(d)) => {
            let s = trim(d);
            c.config.disc.rip_dest_dir = if s.as_str().unicode_len() == 0 {
                None
            } else {
                Some(s)
            };
        },
        _ => {},
    }
}

/// The preset that ripped files are encoded with.
pub fn sparkamp_get_rip_quality<B: AudioBackend>(ctx: Option<&SparkampCtx<B>>) -> (r: i32)
    ensures
        r == (match ctx {
            Some(c) => c.config.disc.rip_mp3_quality as int,
            None => 1,
        }),
{
    match ctx {
        Some(c) => c.config.disc.rip_mp3_quality as i32,
        None => 1,
    }
}

pub fn sparkamp_set_rip_quality<B: AudioBackend>(ctx: Option<&mut SparkampCtx<B>>, preset: i32)
    ensures
        ctx matches Some(c) ==> *final(c) == (SparkampCtx {
            config: Config { disc: config::DiscConfig { rip_mp3_quality: rip_preset(preset), ..c.config.disc }, ..c.config },
            ..*c
        }),
{
    if let Some(c) = ctx {
        c.config.disc.rip_mp3_quality = if preset == 0 {
            0
        } else if preset == 2 {
            2
        } else {
            1
        };
    }
}

/// Whether a burnt disc is verified.
pub fn sparkamp_get_burn_verify<B: AudioBackend>(ctx: Option<&SparkampCtx<B>>) -> (r: bool)
    ensures
        r == (match ctx {
            Some(c) => c.config.disc.burn_verify,
            None => true,
        }),
{
    match ctx {
        Some(c) => c.config.disc.burn_verify,
        None => true,
    }
}

pub fn sparkamp_set_burn_verify<B: AudioBackend>(ctx: Option<&mut SparkampCtx<B>>, value: bool)
    ensures
        ctx matches Some(c) ==> *final(c) == (SparkampCtx {
            config: Config { disc: config::DiscConfig { burn_verify: value, ..c.config.disc }, ..c.config },
            ..*c
        }),
{
    if let Some(c) = ctx {
        c.config.disc.burn_verify = value;
    }
}

/// Whether an inserted audio disc is shown.
pub fn sparkamp_get_auto_show_inserted_cd<B: AudioBackend>(ctx: Option<&SparkampCtx<B>>) -> (r: bool)
    ensures
        r == (match ctx {
            Some(c) => c.config.disc.auto_show_inserted_audio_cd,
            None => true,
        }),
{
    match ctx {
        Some(c) => c.config.disc.auto_show_inserted_audio_cd,
        None => true,
    }
}

pub fn sparkamp_set_auto_show_inserted_cd<B: AudioBackend>(ctx: Option<&mut SparkampCtx<B>>, value: bool)
    ensures
        ctx matches Some(c) ==> *final(c) == (SparkampCtx {
            config: Config { disc: config::DiscConfig { auto_show_inserted_audio_cd: value, ..c.config.disc }, ..c.config },
            ..*c
        }),
{
    if let Some(c) = ctx {
        c.config.disc.auto_show_inserted_audio_cd = value;
    }
}

/// Whether an added track is played at once.
pub fn sparkamp_get_autoplay_on_add<B: AudioBackend>(ctx: Option<&SparkampCtx<B>>) -> (r: bool)
    ensures
        r == (match ctx {
            Some(c) => c.config.behavior.autoplay_on_add,
            None => false,
        }),
{
    match ctx {
        Some(c) => c.config.behavior.autoplay_on_add,
        None => false,
    }
}

pub fn sparkamp_set_autoplay_on_add<B: AudioBackend>(ctx: Option<&mut SparkampCtx<B>>, value: bool)
    ensures
        ctx matches Some(c) ==> *final(c) == (SparkampCtx {
            config: Config { behavior: config::BehaviorConfig { autoplay_on_add: value, ..c.config.behavior }, ..c.config },
            ..*c
        }),
{
    if let Some(c) = ctx {
        c.config.behavior.autoplay_on_add = value;
    }
}

/// Whether library folders are watched for changes.
pub fn sparkamp_get_watch_folders<B: AudioBackend>(ctx: Option<&SparkampCtx<B>>) -> (r: bool)
    ensures
        r == (match ctx {
            Some(c) => c.config.media_library.watch_folders,
            None => false,
        }),
{
    match ctx {
        Some(c) => c.config.media_library.watch_folders,
        None => false,
    }
}

pub fn sparkamp_set_watch_folders<B: AudioBackend>(ctx: Option<&mut SparkampCtx<B>>, value: bool)
    ensures
        ctx matches Some(c) ==> *final(c) == (SparkampCtx {
            config: Config { media_library: config::MediaLibraryConfig { watch_folders: value, ..c.config.media_library }, ..c.config },
            ..*c
        }),
{
    if let Some(c) = ctx {
        c.config.media_library.watch_folders = value;
    }
}

/// Whether a played file goes into the library.
pub fn sparkamp_get_auto_add_played<B: AudioBackend>(ctx: Option<&SparkampCtx<B>>) -> (r: bool)
    ensures
        r == (match ctx {
            Some(c) => c.config.media_library.auto_add_played,
            None => false,
        }),
{
    match ctx {
        Some(c) => c.config.media_library.auto_add_played,
        None => false,
    }
}

pub fn sparkamp_set_auto_add_played<B: AudioBackend>(ctx: Option<&mut SparkampCtx<B>>, value: bool)
    ensures
        ctx matches Some(c) ==> *final(c) == (SparkampCtx {
            config: Config { media_library: config::MediaLibraryConfig { auto_add_played: value, ..c.config.media_library }, ..c.config },
            ..*c
        }),
{
    if let Some(c) = ctx {
        c.config.media_library.auto_add_played = value;
    }
}

/// Whether a track without an album artist goes under its artist.
pub fn sparkamp_get_artist_as_album_artist<B: AudioBackend>(ctx: Option<&SparkampCtx<B>>) -> (r: bool)
    ensures
        r == (match ctx {
            Some(c) => c.config.media_library.artist_as_album_artist,
            None => false,
        }),
{
    match ctx {
        Some(c) => c.config.media_library.artist_as_album_artist,
        None => false,
    }
}

pub fn sparkamp_set_artist_as_album_artist<B: AudioBackend>(ctx: Option<&mut SparkampCtx<B>>, value: bool)
    ensures
        ctx matches Some(c) ==> *final(c) == (SparkampCtx {
            config: Config { media_library: config::MediaLibraryConfig { artist_as_album_artist: value, ..c.config.media_library }, ..c.config },
            ..*c
        }),
{
    if let Some(c) = ctx {
        c.config.media_library.artist_as_album_artist = value;
    }
}

/// Whether the library is left closed at the start.
pub fn sparkamp_get_skip_db_load<B: AudioBackend>(ctx: Option<&SparkampCtx<B>>) -> (r: bool)
    ensures
        r == (match ctx {
            Some(c) => c.config.media_library.skip_db_load,
            None => false,
        }),
{
    match ctx {
        Some(c) => c.config.media_library.skip_db_load,
        None => false,
    }
}

pub fn sparkamp_set_skip_db_load<B: AudioBackend>(ctx: Option<&mut SparkampCtx<B>>, value: bool)
    ensures
        ctx matches Some(c) ==> *final(c) == (SparkampCtx {
            config: Config { media_library: config::MediaLibraryConfig { skip_db_load: value, ..c.config.media_library }, ..c.config },
            ..*c
        }),
{
    if let Some(c) = ctx {
        c.config.media_library.skip_db_load = value;
    }
}

/// Whether each view's search comes back.
pub fn sparkamp_get_remember_search<B: AudioBackend>(ctx: Option<&SparkampCtx<B>>) -> (r: bool)
    ensures
        r == (match ctx {
            Some(c) => c.config.media_library.remember_search,
            None => false,
        }),
{
    match ctx {
        Some(c) => c.config.media_library.remember_search,
        None => false,
    }
}

pub fn sparkamp_set_remember_search<B: AudioBackend>(ctx: Option<&mut SparkampCtx<B>>, value: bool)
    ensures
        ctx matches Some(c) ==> *final(c) == (SparkampCtx {
            config: Config { media_library: config::MediaLibraryConfig { remember_search: value, ..c.config.media_library }, ..c.config },
            ..*c
        }),
{
    if let Some(c) = ctx {
        c.config.media_library.remember_search = value;
    }
}

/// Whether a rescan removes rows whose files are gone.
pub fn sparkamp_get_remove_missing_on_rescan<B: AudioBackend>(ctx: Option<&SparkampCtx<B>>) -> (r: bool)
    ensures
        r == (match ctx {
            Some(c) => c.config.media_library.remove_missing_on_rescan,
            None => false,
        }),
{
    match ctx {
        Some(c) => c.config.media_library.remove_missing_on_rescan,
        None => false,
    }
}

pub fn sparkamp_set_remove_missing_on_rescan<B: AudioBackend>(ctx: Option<&mut SparkampCtx<B>>, value: bool)
    ensures
        ctx matches Some(c) ==> *final(c) == (SparkampCtx {
            config: Config { media_library: config::MediaLibraryConfig { remove_missing_on_rescan: value, ..c.config.media_library }, ..c.config },
            ..*c
        }),
{
    if let Some(c) = ctx {
        c.config.media_library.remove_missing_on_rescan = value;
    }
}

/// Whether the library is compacted after a rescan.
pub fn sparkamp_get_compact_on_rescan<B: AudioBackend>(ctx: Option<&SparkampCtx<B>>) -> (r: bool)
    ensures
        r == (match ctx {
            Some(c) => c.config.media_library.compact_on_rescan,
            None => false,
        }),
{
    match ctx {
        Some(c) => c.config.media_library.compact_on_rescan,
        None => false,
    }
}

pub fn sparkamp_set_compact_on_rescan<B: AudioBackend>(ctx: Option<&mut SparkampCtx<B>>, value: bool)
    ensures
        ctx matches Some(c) ==> *final(c) == (SparkampCtx {
            config: Config { media_library: config::MediaLibraryConfig { compact_on_rescan: value, ..c.config.media_library }, ..c.config },
            ..*c
        }),
{
    if let Some(c) = ctx {
        c.config.media_library.compact_on_rescan = value;
    }
}

/// Whether the library is rescanned at the start.
pub fn sparkamp_get_rescan_on_startup<B: AudioBackend>(ctx: Option<&SparkampCtx<B>>) -> (r: bool)
    ensures
        r == (match ctx {
            Some(c) => c.config.media_library.rescan_on_startup,
            None => false,
        }),
{
    match ctx {
        Some(c) => c.config.media_library.rescan_on_startup,
        None => false,
    }
}

pub fn sparkamp_set_rescan_on_startup<B: AudioBackend>(ctx: Option<&mut SparkampCtx<B>>, value: bool)
    ensures
        ctx matches Some(c) ==> *final(c) == (SparkampCtx {
            config: Config { media_library: config::MediaLibraryConfig { rescan_on_startup: value, ..c.config.media_library }, ..c.config },
            ..*c
        }),
{
    if let Some(c) = ctx {
        c.config.media_library.rescan_on_startup = value;
    }
}

/// Whether a play is ever counted.
pub fn sparkamp_get_play_stats_enabled<B: AudioBackend>(ctx: Option<&SparkampCtx<B>>) -> (r: bool)
    ensures
        r == (match ctx {
            Some(c) => c.config.playback.play_stats.enabled,
            None => true,
        }),
{
    match ctx {
        Some(c) => c.config.playback.play_stats.enabled,
        None => true,
    }
}

pub fn sparkamp_set_play_stats_enabled<B: AudioBackend>(ctx: Option<&mut SparkampCtx<B>>, value: bool)
    ensures
        ctx matches Some(c) ==> *final(c) == (SparkampCtx {
            config: Config { playback: config::PlaybackConfig { play_stats: config::PlayStats { enabled: value, ..c.config.playback.play_stats }, ..c.config.playback }, ..c.config },
            ..*c
        }),
{
    if let Some(c) = ctx {
        c.config.playback.play_stats.enabled = value;
    }
}

/// Whether new files are analyzed for their gain.
pub fn sparkamp_get_rg_auto_analyze<B: AudioBackend>(ctx: Option<&SparkampCtx<B>>) -> (r: bool)
    ensures
        r == (match ctx {
            Some(c) => c.config.playback.replaygain.auto_analyze,
            None => false,
        }),
{
    match ctx {
        Some(c) => c.config.playback.replaygain.auto_analyze,
        None => false,
    }
}

pub fn sparkamp_set_rg_auto_analyze<B: AudioBackend>(ctx: Option<&mut SparkampCtx<B>>, value: bool)
    ensures
        ctx matches Some(c) ==> *final(c) == (SparkampCtx {
            config: Config { playback: config::PlaybackConfig { replaygain: config::ReplayGain { auto_analyze: value, ..c.config.playback.replaygain }, ..c.config.playback }, ..c.config },
            ..*c
        }),
{
    if let Some(c) = ctx {
        c.config.playback.replaygain.auto_analyze = value;
    }
}

/// Whether an analyzed gain is written to the file.
pub fn sparkamp_get_rg_write_tags<B: AudioBackend>(ctx: Option<&SparkampCtx<B>>) -> (r: bool)
    ensures
        r == (match ctx {
            Some(c) => c.config.playback.replaygain.write_tags,
            None => false,
        }),
{
    match ctx {
        Some(c) => c.config.playback.replaygain.write_tags,
        None => false,
    }
}

pub fn sparkamp_set_rg_write_tags<B: AudioBackend>(ctx: Option<&mut SparkampCtx<B>>, value: bool)
    ensures
        ctx matches Some(c) ==> *final(c) == (SparkampCtx {
            config: Config { playback: config::PlaybackConfig { replaygain: config::ReplayGain { write_tags: value, ..c.config.playback.replaygain }, ..c.config.playback }, ..c.config },
            ..*c
        }),
{
    if let Some(c) = ctx {
        c.config.playback.replaygain.write_tags = value;
    }
}

/// Minutes between rescans, zero for never.
pub fn sparkamp_get_ml_rescan_interval<B: AudioBackend>(ctx: Option<&SparkampCtx<B>>) -> (r: u32)
    ensures
        r == (match ctx {
            Some(c) => c.config.media_library.rescan_interval_mins,
            None => 0,
        }),
{
    match ctx {
        Some(c) => c.config.media_library.rescan_interval_mins,
        None => 0,
    }
}

pub fn sparkamp_set_ml_rescan_interval<B: AudioBackend>(ctx: Option<&mut SparkampCtx<B>>, mins: i32)
    ensures
        ctx matches Some(c) ==> *final(c) == (SparkampCtx {
            config: Config { media_library: config::MediaLibraryConfig { rescan_interval_mins: (if mins <= 0 { 0 } else { mins as u32 }), ..c.config.media_library }, ..c.config },
            ..*c
        }),
{
    if let Some(c) = ctx {
        c.config.media_library.rescan_interval_mins = if mins <= 0 {
            0
        } else {
            mins as u32
        };
    }
}

/// The last search of a view, empty where none is kept and `None` where it cannot
/// cross.
pub fn sparkamp_get_last_search<B: AudioBackend>(
    ctx: Option<&SparkampCtx<B>>,
    view_id: Option<&str>,
) -> (r: Option<String>)
    ensures
        ctx is None || view_id is None ==> r is None,
        ctx matches Some(c) ==> (view_id matches Some(v) ==> text::crosses(
            match c.config.media_library.last_search.holds(v@) {
                Some(q) => q,
                None => Seq::empty(),
            },
            r,
        )),
{
    match (ctx, view_id) {
        (Some(c), Some(v)) => match c.config.media_library.last_search.get(v) {
            Some(q) => c_or_null(q.as_str()),
            None => {
                let none = String::new();
                assert(none@ =~= Seq::empty());
                Some(none)
            },
        },
        _ => None,
    }
}

/// Keeps a view's search, an empty one too; other views keep theirs.
pub fn sparkamp_set_last_search<B: AudioBackend>(
    ctx: Option<&mut SparkampCtx<B>>,
    view_id: Option<&str>,
    query: Option<&str>,
)
    ensures
        ctx matches Some(c) ==> {
            &&& match (view_id, query) {
                (Some(v), Some(q)) => forall|k: Seq<char>| #[trigger]
                    final(c).config.media_library.last_search.holds(k) == (if k == v@ {
                        Some(q@)
                    } else {
                        c.config.media_library.last_search.holds(k)
                    }),
                _ => *final(c) == *c,
            }
            &&& *final(c) == (SparkampCtx {
                config: Config {
                    media_library: config::MediaLibraryConfig {
                        last_search: final(c).config.media_library.last_search,
                        ..c.config.media_library
                    },
                    ..c.config
                },
                ..*c
            })
        },
{
    match (ctx, view_id, query) {
        (Some(c), Some(v), Some(q)) => {
            c.config.media_library.last_search.insert(v.to_owned(), q.to_owned());
        },
        _ => {},
    }
}

/// The position at which a track counts as played, in nanoseconds, given its
/// length, which is not known at zero or below: never where plays are not
/// counted; a share of the length where one is asked for and the length is known;
/// else a fixed time.
pub open spec fn play_deadline(stats: config::PlayStats, length: i64) -> Option<int> {
    if !stats.enabled {
        None
    } else if stats.mode == PlayStatsMode::Percent && length > 0 {
        Some((length * stats.percent) / 100)
    } else {
        Some(stats.seconds * 1_000_000_000)
    }
}

/// The position at which the current track counts as played, in nanoseconds.
pub fn sparkamp_play_deadline_secs<B: AudioBackend>(ctx: Option<&SparkampCtx<B>>, length: i64) -> (r:
    Option<u128>)
    ensures
        match r {
            Some(at) => ctx matches Some(c) && play_deadline(c.config.playback.play_stats, length)
                == Some(at as int),
            None => ctx matches Some(c) ==> play_deadline(c.config.playback.play_stats, length) is None,
        },
{
    let c = match ctx {
        Some(c) => c,
        None => return None,
    };
    let stats = c.config.playback.play_stats;
    if !stats.enabled {
        return None;
    }
    if stats.mode == PlayStatsMode::Percent && length > 0 {
        assert(0 <= length * stats.percent <= length * 0xffff_ffff) by (nonlinear_arith)
            requires
                0 <= stats.percent <= 0xffff_ffff,
                0 < length,
        ;
        Some(((length as u128) * (stats.percent as u128)) / 100)
    } else {
        Some((stats.seconds as u128) * 1_000_000_000)
    }
}

/// What the play threshold is measured in: 0 seconds, 1 percent.
pub fn sparkamp_get_play_stats_mode<B: AudioBackend>(ctx: Option<&SparkampCtx<B>>) -> (r: u32)
    ensures
        r == (match ctx {
            Some(c) => stats_code(c.config.playback.play_stats.mode),
            None => 0,
        }),
{
    match ctx {
        Some(c) => match c.config.playback.play_stats.mode {
            PlayStatsMode::Seconds => 0,
            PlayStatsMode::Percent => 1,
        },
        None => 0,
    }
}

pub fn sparkamp_set_play_stats_mode<B: AudioBackend>(ctx: Option<&mut SparkampCtx<B>>, value: u32)
    ensures
        ctx matches Some(c) ==> *final(c) == (SparkampCtx {
            config: Config { playback: config::PlaybackConfig { play_stats: config::PlayStats { mode: stats_mode(value), ..c.config.playback.play_stats }, ..c.config.playback }, ..c.config },
            ..*c
        }),
{
    if let Some(c) = ctx {
        c.config.playback.play_stats.mode = if value == 1 {
            PlayStatsMode::Percent
        } else {
            PlayStatsMode::Seconds
        };
    }
}

/// The play threshold in seconds.
pub fn sparkamp_get_play_stats_seconds<B: AudioBackend>(ctx: Option<&SparkampCtx<B>>) -> (r: u32)
    ensures
        r == (match ctx {
            Some(c) => c.config.playback.play_stats.seconds,
            None => 20,
        }),
{
    match ctx {
        Some(c) => c.config.playback.play_stats.seconds,
        None => 20,
    }
}

/// Sets the threshold; at least one second.
pub fn sparkamp_set_play_stats_seconds<B: AudioBackend>(ctx: Option<&mut SparkampCtx<B>>, value: u32)
    ensures
        ctx matches Some(c) ==> *final(c) == (SparkampCtx {
            config: Config { playback: config::PlaybackConfig { play_stats: config::PlayStats { seconds: (if value < 1 { 1 } else { value }), ..c.config.playback.play_stats }, ..c.config.playback }, ..c.config },
            ..*c
        }),
{
    if let Some(c) = ctx {
        c.config.playback.play_stats.seconds = if value < 1 {
            1
        } else {
            value
        };
    }
}

/// The play threshold in percent of the length.
pub fn sparkamp_get_play_stats_percent<B: AudioBackend>(ctx: Option<&SparkampCtx<B>>) -> (r: u32)
    ensures
        r == (match ctx {
            Some(c) => c.config.playback.play_stats.percent as u32,
            None => 50,
        }),
{
    match ctx {
        Some(c) => c.config.playback.play_stats.percent as u32,
        None => 50,
    }
}

/// Sets the threshold, moved into 1 to 100.
pub fn sparkamp_set_play_stats_percent<B: AudioBackend>(ctx: Option<&mut SparkampCtx<B>>, value: u32)
    ensures
        ctx matches Some(c) ==> *final(c) == (SparkampCtx {
            config: Config { playback: config::PlaybackConfig { play_stats: config::PlayStats { percent: (if value < 1 { 1 } else if value > 100 { 100 } else { value as u8 }), ..c.config.playback.play_stats }, ..c.config.playback }, ..c.config },
            ..*c
        }),
{
    if let Some(c) = ctx {
        c.config.playback.play_stats.percent = if value < 1 {
            1
        } else if value > 100 {
            100
        } else {
            value as u8
        };
    }
}

/// Where in a track a position lies, in parts per billion of its length.
pub open spec fn fraction_at(now: Timeline) -> Option<u64> {
    match (now.position, now.duration) {
        (Some(p), Some(d)) if d > 0 => Some(
            if p >= d {
                UNITY_PPB
            } else {
                ((p * UNITY_PPB) / (d as int)) as u64
            },
        ),
        _ => None,
    }
}

fn fraction_of(now: Timeline) -> (r: Option<u64>)
    ensures
        r == fraction_at(now),
        r matches Some(f) ==> f <= UNITY_PPB,
{
    match (now.position, now.duration) {
        (Some(p), Some(d)) => {
            if d == 0 {
                None
            } else if p >= d {
                Some(UNITY_PPB)
            } else {
                assert(0 <= p * UNITY_PPB < UNITY_PPB * d) by (nonlinear_arith)
                    requires
                        0 <= p < d,
                ;
                assert(p * UNITY_PPB <= 0xffff_ffff_ffff_ffff * UNITY_PPB) by (nonlinear_arith)
                    requires
                        0 <= p <= 0xffff_ffff_ffff_ffff,
                ;
                assert(UNITY_PPB * d == d * UNITY_PPB) by (nonlinear_arith);
                let f: u128 = (p as u128) * (UNITY_PPB as u128) / (d as u128);
                proof {
                    vstd::arithmetic::div_mod::lemma_multiply_divide_lt(
                        p * UNITY_PPB,
                        d as int,
                        UNITY_PPB as int,
                    );
                    vstd::arithmetic::div_mod::lemma_div_pos_is_pos(p * UNITY_PPB, d as int);
                }
                Some(f as u64)
            }
        },
        _ => None,
    }
}

/// Loads the current track again and comes back to where it was, once the fresh
/// path can report a length. `now` is the clock as it was read before.
pub fn reload_at<B: AudioBackend>(ctx: &mut SparkampCtx<B>, now: Timeline, gains: Gains) -> (r: Option<
    String,
>)
    requires
        old(ctx).wf(),
    ensures
        final(ctx).wf(),
        if old(ctx).playlist@.current_row() is Some {
            &&& final(ctx).pending_seek == (match fraction_at(now) {
                Some(f) => Some(f),
                None => old(ctx).pending_seek,
            })
            &&& ffi::primed_saying(
                final(ctx).player,
                old(ctx).player,
                model::uri_of(old(ctx).playlist@.current_row()->0.path),
                ffi::gain_in(old(ctx).config.playback, gains),
                r,
            )
            &&& *final(ctx) == (SparkampCtx {
                player: final(ctx).player,
                pending_seek: final(ctx).pending_seek,
                ..*old(ctx)
            })
        } else {
            *final(ctx) == *old(ctx) && r is None
        },
{
    if ctx.playlist.current().is_none() {
        return None;
    }
    let r = start_current(ctx, gains);
    if let Some(f) = fraction_of(now) {
        ctx.pending_seek = Some(f);
    }
    r
}

/// A player once the normalization settings were applied to it.
pub open spec fn normalized<B: AudioBackend>(
    after: engine::Player<B>,
    before: engine::Player<B>,
    set: config::PlaybackConfig,
) -> bool {
    let gain = set.replaygain;
    &&& after.wf()
    &&& after.settings() == (engine::Settings {
        rg: RgChain {
            enabled: gain.enabled,
            clip_protection: gain.clip_protection,
            fallback_db: gain.fallback_db,
        },
        track_fallback_db: if gain.fallback_db != before.settings().rg.fallback_db {
            None
        } else {
            before.settings().track_fallback_db
        },
        album_mode: config::uses_album_gain(gain.source, set.shuffle_enabled),
        reload_pending: after.settings().reload_pending,
        ..before.settings()
    })
    &&& after.audio().level() == before.audio().level()
    &&& after.visual() == before.visual()
    &&& after.settings().caps.normalization && after.settings().reload_pending
        ==> after.audio().deferred() == Some(after.settings().wanted())
    &&& after.settings().caps.normalization && !after.settings().reload_pending
        ==> backend::serves(after.audio().installed(), after.settings().wanted())
        && after.audio().deferred() is None
    &&& !after.settings().caps.normalization ==> !after.settings().reload_pending
    &&& ffi::shaped_path(before.audio(), after.audio(), before.settings(), after.settings())
}

/// What applying the normalization settings leaves of a session: where the
/// change has to wait for a load and something plays, that is loaded again so
/// that the change is heard at once.
pub open spec fn normalization_applied<B: AudioBackend>(
    after: SparkampCtx<B>,
    before: SparkampCtx<B>,
    gains: Gains,
    said: Option<String>,
) -> bool {
    &&& after == (SparkampCtx {
        player: after.player,
        pending_seek: after.pending_seek,
        ..before
    })
    &&& exists|mid: engine::Player<B>|
        {
            &&& #[trigger] normalized(mid, before.player, before.config.playback)
            &&& match before.playlist@.current_row() {
                Some(t) if mid.settings().reload_pending && mid.settings().state
                    == PlayerState::Playing => {
                    &&& ffi::primed_saying(
                        after.player,
                        mid,
                        model::uri_of(t.path),
                        ffi::gain_in(before.config.playback, gains),
                        said,
                    )
                    &&& exists|now: Timeline| #[trigger]
                        mid.may_read(now) && after.pending_seek == (match fraction_at(now) {
                            Some(f) => Some(f),
                            None => before.pending_seek,
                        })
                },
                _ => {
                    &&& after.player == mid
                    &&& after.pending_seek == before.pending_seek
                    &&& said is None
                },
            }
        }
}

/// Applies the normalization settings to the player.
pub fn ffi_apply_replaygain<B: AudioBackend>(ctx: &mut SparkampCtx<B>, gains: Gains) -> (r: Option<
    String,
>)
    requires
        old(ctx).wf(),
    ensures
        final(ctx).wf(),
        normalization_applied(*final(ctx), *old(ctx), gains, r),
{
    let gain = ctx.config.playback.replaygain;
    let album = config::rg_album_mode(gain.source, ctx.config.playback.shuffle_enabled);
    ctx.player.set_replaygain(
        RgChain {
            enabled: gain.enabled,
            clip_protection: gain.clip_protection,
            fallback_db: gain.fallback_db,
        },
    );
    ctx.player.set_rg_album_mode(album);
    let ghost mid = ctx.player;
    assert(ffi::shaped_path(
        old(ctx).player.audio(),
        mid.audio(),
        old(ctx).player.settings(),
        mid.settings(),
    ));
    assert(normalized(mid, old(ctx).player, old(ctx).config.playback));
    if ctx.player.rg_reload_pending() && ctx.player.state() == PlayerState::Playing {
        let now = ctx.player.timeline();
        assert(mid.may_read(now));
        return reload_at(ctx, now, gains);
    }
    None
}

/// Whether playback is normalized.
pub fn sparkamp_get_rg_enabled<B: AudioBackend>(ctx: Option<&SparkampCtx<B>>) -> (r: bool)
    ensures
        r == (match ctx {
            Some(c) => c.config.playback.replaygain.enabled,
            None => false,
        }),
{
    match ctx {
        Some(c) => c.config.playback.replaygain.enabled,
        None => false,
    }
}

/// Switches normalization on or off, and applies it.
pub fn sparkamp_set_rg_enabled<B: AudioBackend>(
    ctx: Option<&mut SparkampCtx<B>>,
    value: bool,
    gains: Gains,
) -> (r: Option<String>)
    requires
        ctx matches Some(c) ==> c.wf(),
    ensures
        ctx is None ==> r is None,
        ctx matches Some(c) ==> {
            &&& final(c).wf()
            &&& normalization_applied(
                *final(c),
                (SparkampCtx {
                    config: Config { playback: config::PlaybackConfig { replaygain: config::ReplayGain { enabled: value, ..c.config.playback.replaygain }, ..c.config.playback }, ..c.config },
                    ..*c
                }),
                gains,
                r,
            )
        },
{
    match ctx {
        Some(c) => {
            c.config.playback.replaygain.enabled = value;
            ffi_apply_replaygain(c, gains)
        },
        None => None,
    }
}

/// Which gain is used: 0 the track's, 1 the album's, 2 automatic.
pub fn sparkamp_get_rg_source<B: AudioBackend>(ctx: Option<&SparkampCtx<B>>) -> (r: i32)
    ensures
        r == (match ctx {
            Some(c) => source_code(c.config.playback.replaygain.source),
            None => 2,
        }),
{
    match ctx {
        Some(c) => match c.config.playback.replaygain.source {
            RgSource::Track => 0,
            RgSource::Album => 1,
            RgSource::Automatic => 2,
        },
        None => 2,
    }
}

/// Sets which gain is used, and applies it.
pub fn sparkamp_set_rg_source<B: AudioBackend>(
    ctx: Option<&mut SparkampCtx<B>>,
    value: i32,
    gains: Gains,
) -> (r: Option<String>)
    requires
        ctx matches Some(c) ==> c.wf(),
    ensures
        ctx is None ==> r is None,
        ctx matches Some(c) ==> {
            &&& final(c).wf()
            &&& normalization_applied(
                *final(c),
                (SparkampCtx {
                    config: Config { playback: config::PlaybackConfig { replaygain: config::ReplayGain { source: source_of(value), ..c.config.playback.replaygain }, ..c.config.playback }, ..c.config },
                    ..*c
                }),
                gains,
                r,
            )
        },
{
    match ctx {
        Some(c) => {
            c.config.playback.replaygain.source = if value == 0 {
                RgSource::Track
            } else if value == 1 {
                RgSource::Album
            } else {
                RgSource::Automatic
            };
            ffi_apply_replaygain(c, gains)
        },
        None => None,
    }
}

/// Whether a loud track is attenuated rather than clipped.
pub fn sparkamp_get_rg_clip_protection<B: AudioBackend>(ctx: Option<&SparkampCtx<B>>) -> (r: bool)
    ensures
        r == (match ctx {
            Some(c) => c.config.playback.replaygain.clip_protection,
            None => true,
        }),
{
    match ctx {
        Some(c) => c.config.playback.replaygain.clip_protection,
        None => true,
    }
}

/// Sets whether a loud track is attenuated, and applies it.
pub fn sparkamp_set_rg_clip_protection<B: AudioBackend>(
    ctx: Option<&mut SparkampCtx<B>>,
    value: bool,
    gains: Gains,
) -> (r: Option<String>)
    requires
        ctx matches Some(c) ==> c.wf(),
    ensures
        ctx is None ==> r is None,
        ctx matches Some(c) ==> {
            &&& final(c).wf()
            &&& normalization_applied(
                *final(c),
                (SparkampCtx {
                    config: Config { playback: config::PlaybackConfig { replaygain: config::ReplayGain { clip_protection: value, ..c.config.playback.replaygain }, ..c.config.playback }, ..c.config },
                    ..*c
                }),
                gains,
                r,
            )
        },
{
    match ctx {
        Some(c) => {
            c.config.playback.replaygain.clip_protection = value;
            ffi_apply_replaygain(c, gains)
        },
        None => None,
    }
}

/// The gain of an untagged file, in millionths of a decibel.
pub fn sparkamp_get_rg_fallback_db<B: AudioBackend>(ctx: Option<&SparkampCtx<B>>) -> (r: i64)
    ensures
        r == (match ctx {
            Some(c) => c.config.playback.replaygain.fallback_db,
            None => 0,
        }),
{
    match ctx {
        Some(c) => c.config.playback.replaygain.fallback_db,
        None => 0,
    }
}

/// Sets the gain of untagged files, of the one that plays now too.
pub fn sparkamp_set_rg_fallback_db<B: AudioBackend>(ctx: Option<&mut SparkampCtx<B>>, db: i64)
    requires
        ctx matches Some(c) ==> c.wf(),
    ensures
        ctx matches Some(c) ==> {
            &&& final(c).wf()
            &&& final(c).config == (Config { playback: config::PlaybackConfig { replaygain: config::ReplayGain { fallback_db: db, ..c.config.playback.replaygain }, ..c.config.playback }, ..c.config })
            &&& final(c).player.settings() == (engine::Settings {
                rg: RgChain { fallback_db: db, ..c.player.settings().rg },
                track_fallback_db: None,
                reload_pending: final(c).player.settings().reload_pending,
                ..c.player.settings()
            })
            &&& final(c).player.normalization_pushed(&c.player)
            &&& *final(c) == (SparkampCtx {
                player: final(c).player,
                config: final(c).config,
                ..*c
            })
        },
{
    if let Some(c) = ctx {
        c.config.playback.replaygain.fallback_db = db;
        c.player.set_rg_fallback_db(db);
    }
}

/// A normalization change that has to wait for a load while a track plays is in
/// force by the time the track is playing again.
pub proof fn law_a_change_that_waits_is_heard_after_the_reload<B: AudioBackend>(
    mid: engine::Player<B>,
    before: engine::Player<B>,
    set: config::PlaybackConfig,
    loaded: engine::Player<B>,
    primed: engine::Player<B>,
    gain: Option<i64>,
    uri: Seq<char>,
)
    requires
        normalized(mid, before, set),
        mid.settings().reload_pending,
        primed.primed(&mid, gain),
        loaded.load_settled(&primed, uri, Ok(())),
    ensures
        backend::serves(loaded.audio().installed(), loaded.settings().wanted()),
        loaded.settings().wanted().enabled == set.replaygain.enabled,
        loaded.settings().wanted().clip_protection == set.replaygain.clip_protection,
        loaded.audio().installed().album_mode == config::uses_album_gain(
            set.replaygain.source,
            set.shuffle_enabled,
        ),
        loaded.audio().deferred() is None,
{
}

/// The numbers by which choices cross are these; a number that stands for none of them
/// stands for the plainest.
pub proof fn law_choices_cross_by_their_numbers(v: i32, w: u32)
    ensures
        add_behavior(0) == PlaylistAddBehavior::Append,
        add_behavior(1) == PlaylistAddBehavior::Replace,
        v != 1 ==> add_behavior(v) == PlaylistAddBehavior::Append,
        0 <= v <= 1 ==> add_code(add_behavior(v)) == v,
        format_of(0) == PlaylistFormat::M3u8,
        format_of(1) == PlaylistFormat::M3u,
        v != 1 ==> format_of(v) == PlaylistFormat::M3u8,
        0 <= v <= 1 ==> format_code(format_of(v)) == v,
        source_of(0) == RgSource::Track,
        source_of(1) == RgSource::Album,
        v != 0 && v != 1 ==> source_of(v) == RgSource::Automatic,
        0 <= v <= 2 ==> source_code(source_of(v)) == v,
        stats_mode(0) == PlayStatsMode::Seconds,
        stats_mode(1) == PlayStatsMode::Percent,
        w != 1 ==> stats_mode(w) == PlayStatsMode::Seconds,
        w <= 1 ==> stats_code(stats_mode(w)) == w,
        0 <= v <= 2 ==> rip_preset(v) == v,
        v < 0 || v > 2 ==> rip_preset(v) == 1,
{
}

/// A fadeout takes one to thirty seconds, and a time outside goes to the nearer end.
pub proof fn law_a_fadeout_takes_one_to_thirty_seconds(value: u32)
    ensures
        1 <= fadeout_clamped(value) <= 30,
        1 <= value <= 30 ==> fadeout_clamped(value) == value,
        value < 1 ==> fadeout_clamped(value) == 1,
        value > 30 ==> fadeout_clamped(value) == 30,
{
}

/// A play counts once the seconds that are set have run, or that part of the track where a
/// percentage is set and the length known; where plays are not counted it never does.
pub proof fn law_a_play_counts_at_its_deadline(stats: config::PlayStats, length: i64)
    ensures
        !stats.enabled ==> play_deadline(stats, length) is None,
        stats.enabled && stats.mode == PlayStatsMode::Seconds ==> play_deadline(stats, length) == Some(
            stats.seconds * 1_000_000_000,
        ),
        stats.enabled && length <= 0 ==> play_deadline(stats, length) == Some(
            stats.seconds * 1_000_000_000,
        ),
        stats.enabled && stats.mode == PlayStatsMode::Percent && length > 0 ==> {
            &&& play_deadline(stats, length) matches Some(at)
            &&& 100 * at <= length * stats.percent < 100 * (at + 1)
            &&& stats.percent <= 100 ==> 0 <= at <= length
        },
{
    if stats.enabled && stats.mode == PlayStatsMode::Percent && length > 0 {
        let x = length * stats.percent;
        assert(0 <= x) by (nonlinear_arith)
            requires
                x == length * stats.percent,
                length > 0,
                stats.percent >= 0,
        ;
        if stats.percent <= 100 {
            assert(x <= length * 100) by (nonlinear_arith)
                requires
                    x == length * stats.percent,
                    length > 0,
                    0 <= stats.percent <= 100,
            ;
        }
    }
}

/// Where the player is in a track, as a part of it: as far as position is to length, all of
/// it from the end on, and unknown where either is, or where the length is none.
pub proof fn law_a_fraction_is_how_far_the_track_has_run(p: u64, d: u64, now: Timeline)
    ensures
        now.position is None || now.duration is None ==> fraction_at(now) is None,
        now.duration == Some(0u64) ==> fraction_at(now) is None,
        now.position == Some(p) && now.duration == Some(d) && d > 0 ==> {
            &&& fraction_at(now) matches Some(f)
            &&& f <= 1_000_000_000
            &&& p >= d ==> f == 1_000_000_000
            &&& p < d ==> f * d <= p * 1_000_000_000 < (f + 1) * d
        },
{
    if now.position == Some(p) && now.duration == Some(d) && d > 0 && p < d {
        let x = p * 1_000_000_000;
        let q = x / (d as int);
        vstd::arithmetic::div_mod::lemma_fundamental_div_mod(x, d as int);
        vstd::arithmetic::div_mod::lemma_mod_bound(x, d as int);
        assert(q * d <= x < (q + 1) * d) by (nonlinear_arith)
            requires
                x == d * q + x % (d as int),
                0 <= x % (d as int) < d,
        ;
        assert(0 <= q <= 1_000_000_000) by (nonlinear_arith)
            requires
                q * d <= x < (q + 1) * d,
                x == p * 1_000_000_000,
                0 <= p < d,
        ;
    }
}

/// A seek to the part that a track had run, once it is loaded again, lands where it was,
/// short of it by no more than the part that a billionth of its length is.
pub proof fn law_a_reload_goes_on_where_it_was(p: u64, d: u64)
    requires
        p < d,
    ensures
        ({
            let now = Timeline { position: Some(p), duration: Some(d) };
            &&& fraction_at(now) matches Some(f)
            &&& ffi::share_of(d, f) <= p
            &&& (p - ffi::share_of(d, f) - 1) * 1_000_000_000 <= d
        }),
{
    let now = Timeline { position: Some(p), duration: Some(d) };
    law_a_fraction_is_how_far_the_track_has_run(p, d, now);
    let f = fraction_at(now).unwrap();
    ffi::law_a_share_is_the_part_it_names(d, f);
    let s = ffi::share_of(d, f);
    assert(d * f == f * d) by (nonlinear_arith);
    assert((f + 1) * d == f * d + d) by (nonlinear_arith);
    assert(s * 1_000_000_000 <= p * 1_000_000_000);
}

/// Settings of the normalization that are applied reach the player whole, and nothing else
/// of it changes: neither volume nor curve nor state.
pub proof fn law_normalization_settings_are_applied<B: AudioBackend>(
    after: engine::Player<B>,
    before: engine::Player<B>,
    set: config::PlaybackConfig,
)
    requires
        normalized(after, before, set),
    ensures
        after.settings().wanted().enabled == set.replaygain.enabled,
        after.settings().wanted().clip_protection == set.replaygain.clip_protection,
        set.replaygain.fallback_db != before.settings().rg.fallback_db
            ==> after.settings().wanted().fallback_db == set.replaygain.fallback_db,
        set.replaygain.source == RgSource::Album ==> after.settings().wanted().album_mode,
        set.replaygain.source == RgSource::Track ==> !after.settings().wanted().album_mode,
        set.replaygain.source == RgSource::Automatic ==> after.settings().wanted().album_mode
            == !set.shuffle_enabled,
        after.settings().volume == before.settings().volume,
        after.settings().preamp == before.settings().preamp,
        after.settings().eq == before.settings().eq,
        after.settings().state == before.settings().state,
        after.settings().db_gain == before.settings().db_gain,
{
}

/// Normalization that is applied while a track plays and needs it loaded anew loads that
/// track, by its own path and with the gain that the source asks for; otherwise nothing is
/// loaded, nothing is said and a seek that waits goes on waiting.
pub proof fn law_applied_normalization_reloads_what_plays<B: AudioBackend>(
    after: SparkampCtx<B>,
    before: SparkampCtx<B>,
    gains: Gains,
    said: Option<String>,
)
    requires
        normalization_applied(after, before, gains, said),
    ensures
        after.config == before.config,
        after.playlist == before.playlist,
        after.queue == before.queue,
        before.playlist@.current_row() is None ==> said is None && after.pending_seek
            == before.pending_seek,
        before.player.settings().state != PlayerState::Playing ==> said is None
            && after.pending_seek == before.pending_seek,
        before.playlist@.current_row() matches Some(t) ==> {
            let loaded_with = |gain: Option<i64>|
                exists|mid: engine::Player<B>, r: Result<(), backend::BackendError>|
                    {
                        &&& mid.settings().wanted().enabled
                            == before.config.playback.replaygain.enabled
                        &&& #[trigger] after.player.started_primed(
                            &mid,
                            model::uri_of(t.path),
                            gain,
                            r,
                        )
                    };
            let source = before.config.playback.replaygain.source;
            let stayed = after.player.settings().state == before.player.settings().state
                && after.pending_seek == before.pending_seek && said is None;
            &&& source == RgSource::Album ==> stayed || loaded_with(gains.album)
            &&& source == RgSource::Track ==> stayed || loaded_with(gains.track)
        },
{
    let mid = choose|mid: engine::Player<B>|
        {
            &&& #[trigger] normalized(mid, before.player, before.config.playback)
            &&& match before.playlist@.current_row() {
                Some(t) if mid.settings().reload_pending && mid.settings().state
                    == PlayerState::Playing => {
                    &&& ffi::primed_saying(
                        after.player,
                        mid,
                        model::uri_of(t.path),
                        ffi::gain_in(before.config.playback, gains),
                        said,
                    )
                    &&& exists|now: Timeline| #[trigger]
                        mid.may_read(now) && after.pending_seek == (match fraction_at(now) {
                            Some(f) => Some(f),
                            None => before.pending_seek,
                        })
                },
                _ => {
                    &&& after.player == mid
                    &&& after.pending_seek == before.pending_seek
                    &&& said is None
                },
            }
        };
    if let Some(t) = before.playlist@.current_row() {
        if mid.settings().reload_pending && mid.settings().state == PlayerState::Playing {
            let r = choose|r: Result<(), backend::BackendError>| #[trigger]
                after.player.started_primed(
                    &mid,
                    model::uri_of(t.path),
                    ffi::gain_in(before.config.playback, gains),
                    r,
                ) && ffi::reported(model::uri_of(t.path), r, said);
            assert(after.player.started_primed(
                &mid,
                model::uri_of(t.path),
                ffi::gain_in(before.config.playback, gains),
                r,
            ));
        }
    }
}

} // verus!
