//! The settings a session carries.

use crate::engine::backend::{clamp_band, UNITY_PPB};
use crate::text::{same, TextMap};
use vstd::prelude::*;

verus! {

/// How long a stop with fadeout takes where nothing is set, in seconds.
pub const DEFAULT_FADEOUT_SECS: u32 = 2;

/// The shortest fadeout that can be set, in seconds.
pub const FADEOUT_SECS_MIN: u32 = 1;

/// The longest fadeout that can be set, in seconds.
pub const FADEOUT_SECS_MAX: u32 = 30;

/// What happens when the end of a track or of the list is reached.
#[derive(Debug, Clone, Copy, PartialEq, Eq, Structural)]
pub enum RepeatMode {
    Off,
    Song,
    Playlist,
}

impl RepeatMode {
    /// The mode after this one.
    pub open spec fn cycled(self) -> RepeatMode {
        match self {
            RepeatMode::Off => RepeatMode::Song,
            RepeatMode::Song => RepeatMode::Playlist,
            RepeatMode::Playlist => RepeatMode::Off,
        }
    }

    /// Off, then one song, then the list, then off again.
    pub fn cycle(self) -> (r: RepeatMode)
        ensures
            r == self.cycled(),
    {
        match self {
            RepeatMode::Off => RepeatMode::Song,
            RepeatMode::Song => RepeatMode::Playlist,
            RepeatMode::Playlist => RepeatMode::Off,
        }
    }
}

/// Three steps through the repeat modes come back to the first.
pub proof fn law_repeat_modes_come_round(mode: RepeatMode)
    ensures
        mode.cycled().cycled().cycled() == mode,
        mode.cycled() != mode,
{
}

/// What adding to the playlist does to what is there.
#[derive(Debug, Clone, Copy, PartialEq, Eq, Structural)]
pub enum PlaylistAddBehavior {
    Append,
    Replace,
}

/// The format of a new playlist file.
#[derive(Debug, Clone, Copy, PartialEq, Eq, Structural)]
pub enum PlaylistFormat {
    M3u8,
    M3u,
}

impl PlaylistFormat {
    /// The file extension of the format.
    pub open spec fn ending(self) -> Seq<char> {
        match self {
            PlaylistFormat::M3u8 => "m3u8"@,
            PlaylistFormat::M3u => "m3u"@,
        }
    }

    /// The file extension of the format.
    pub fn extension(self) -> (r: String)
        ensures
            r@ == self.ending(),
    {
        match self {
            PlaylistFormat::M3u8 => "m3u8".to_owned(),
            PlaylistFormat::M3u => "m3u".to_owned(),
        }
    }
}

/// What the play threshold is measured in.
#[derive(Debug, Clone, Copy, PartialEq, Eq, Structural)]
pub enum PlayStatsMode {
    Seconds,
    Percent,
}

/// When a play counts.
#[derive(Debug, Clone, Copy, PartialEq, Eq, Structural)]
pub struct PlayStats {
    pub enabled: bool,
    pub mode: PlayStatsMode,
    pub seconds: u32,
    /// Of the track's length, 1 to 100.
    pub percent: u8,
}

/// Which of a file's two gains is used.
#[derive(Debug, Clone, Copy, PartialEq, Eq, Structural)]
pub enum RgSource {
    Track,
    Album,
    /// Album, unless the list is shuffled.
    Automatic,
}

/// Whether the album gain is used.
pub open spec fn uses_album_gain(source: RgSource, shuffle: bool) -> bool {
    match source {
        RgSource::Track => false,
        RgSource::Album => true,
        RgSource::Automatic => !shuffle,
    }
}

/// Whether the album gain is used.
pub fn rg_album_mode(source: RgSource, shuffle: bool) -> (r: bool)
    ensures
        r == uses_album_gain(source, shuffle),
{
    match source {
        RgSource::Track => false,
        RgSource::Album => true,
        RgSource::Automatic => !shuffle,
    }
}

/// Playback normalization.
#[derive(Debug, Clone, Copy, PartialEq, Eq, Structural)]
pub struct ReplayGain {
    pub enabled: bool,
    pub source: RgSource,
    pub clip_protection: bool,
    /// In millionths of a decibel.
    pub fallback_db: i64,
    pub auto_analyze: bool,
    pub write_tags: bool,
}

#[derive(Debug, Clone, Copy, PartialEq, Eq, Structural)]
pub struct PlaybackConfig {
    /// In parts per billion of unity.
    pub volume: u64,
    pub shuffle_enabled: bool,
    pub repeat_mode: RepeatMode,
    pub fadeout_secs: u32,
    pub play_stats: PlayStats,
    pub replaygain: ReplayGain,
}

#[derive(Debug, Clone, Copy, PartialEq, Eq, Structural)]
pub struct BehaviorConfig {
    pub playlist_add_behavior: PlaylistAddBehavior,
    pub autoplay_on_add: bool,
}

pub struct MediaLibraryConfig {
    pub playlist_format: PlaylistFormat,
    pub watch_folders: bool,
    pub auto_add_played: bool,
    pub artist_as_album_artist: bool,
    pub skip_db_load: bool,
    pub remember_search: bool,
    pub last_search: TextMap,
    pub remove_missing_on_rescan: bool,
    pub compact_on_rescan: bool,
    pub rescan_on_startup: bool,
    /// Minutes between rescans, zero for never.
    pub rescan_interval_mins: u32,
}

pub struct DiscConfig {
    pub gnudb_email: String,
    pub gnudb_submit_mode_test: bool,
    pub rip_dest_dir: Option<String>,
    /// 0 and 1 for the two variable rates, 2 for the constant one.
    pub rip_mp3_quality: u8,
    pub burn_verify: bool,
    pub auto_show_inserted_audio_cd: bool,
}

/// Whether the time counter shows time left rather than time played.
pub struct DisplayConfig {
    pub time_mode: String,
}

impl DisplayConfig {
    pub fn show_remaining(&self) -> (r: bool)
        ensures
            r == (self.time_mode@ == "remaining"@),
    {
        same(self.time_mode.as_str(), "remaining")
    }

    pub fn set_show_remaining(&mut self, value: bool)
        ensures
            final(self).time_mode@ == (if value {
                "remaining"@
            } else {
                "elapsed"@
            }),
    {
        if value {
            self.time_mode = "remaining".to_owned();
        } else {
            self.time_mode = "elapsed".to_owned();
        }
    }
}

/// The two words of the time counter differ, so what was set reads back.
pub proof fn law_time_mode_reads_back(value: bool)
    ensures
        (if value {
            "remaining"@
        } else {
            "elapsed"@
        } == "remaining"@) == value,
{
    reveal_strlit("remaining");
    reveal_strlit("elapsed");
    if !value {
        assert("elapsed"@.len() == 7);
        assert("remaining"@.len() == 9);
    }
}

#[derive(Debug, Clone, Copy, PartialEq, Eq, Structural)]
pub enum VisualizerMode {
    Bars,
    Waveform,
    Granite,
}

#[derive(Debug, Clone, Copy, PartialEq, Eq, Structural)]
pub enum WaveformStyle {
    Lines,
    Filled,
}

#[derive(Debug, Clone, Copy, PartialEq, Eq, Structural)]
pub enum GranitePalette {
    Granite,
    Fire,
    Neon,
    Ocean,
    Violet,
    Sunset,
    Crt,
    Spectrum,
}

#[derive(Debug, Clone, Copy, PartialEq, Eq, Structural)]
pub enum GraniteEffect {
    Plasma,
    Tunnel,
    Swirl,
    RadialSweep,
    Cells,
    Explode,
    Ripple,
    Shear,
    Kaleido,
    GravityWell,
    Drain,
    Flag,
}

/// The plasma visualizer. Factors are in millionths.
#[derive(Debug, Clone, Copy, PartialEq, Eq, Structural)]
pub struct GraniteConfig {
    pub speed: i64,
    pub palette: GranitePalette,
    pub feedback: i64,
    pub effect: GraniteEffect,
    pub beat_sensitivity: i64,
    pub beat_brightness: bool,
    pub auto_switch: bool,
}

pub struct VisualizerConfig {
    pub mode: VisualizerMode,
    pub display_bands: u32,
    pub bars_mirror: bool,
    pub waveform_style: WaveformStyle,
    pub color_zones: u8,
    pub zone_colors: Vec<String>,
    pub waveform_color_zones: u8,
    pub waveform_zone_colors: Vec<String>,
    pub keep_screen_awake: bool,
    pub granite: GraniteConfig,
}

pub struct EqualizerConfig {
    pub enabled: bool,
    /// In millionths of a decibel.
    pub bands: Vec<i64>,
    pub preset: String,
    /// In parts per billion.
    pub preamp: u64,
}

/// The gains an equalizer is asked for: ten, zero where it is off or has none.
pub open spec fn wanted_bands(enabled: bool, bands: Seq<i64>) -> Seq<i64> {
    Seq::new(
        10,
        |i: int|
            if enabled && i < bands.len() {
                bands[i]
            } else {
                0
            },
    )
}

/// The pre-amp an equalizer is asked for: unity where it is off.
pub open spec fn wanted_preamp(enabled: bool, preamp: u64) -> u64 {
    if !enabled {
        UNITY_PPB
    } else {
        crate::engine::backend::clamped(
            preamp as int,
            crate::engine::PREAMP_MIN as int,
            crate::engine::PREAMP_MAX as int,
        ) as u64
    }
}

/// Ten bands with the gain of one set, in place of whatever the list held.
pub open spec fn band_set(bands: Seq<i64>, band: int, db: i64) -> Seq<i64> {
    Seq::new(
        if bands.len() < 10 {
            10
        } else {
            bands.len()
        },
        |i: int|
            if i == band {
                db
            } else if i < bands.len() {
                bands[i]
            } else {
                0
            },
    )
}

impl EqualizerConfig {
    /// The gains in force.
    pub fn effective_bands(&self) -> (r: Vec<i64>)
        ensures
            r@ == wanted_bands(self.enabled, self.bands@),
    {
        let mut out: Vec<i64> = Vec::new();
        let mut i: usize = 0;
        while i < 10
            invariant
                i <= 10,
                out@.len() == i,
                forall|k: int|
                    0 <= k < i ==> #[trigger] out@[k] == wanted_bands(self.enabled, self.bands@)[k],
            decreases 10 - i,
        {
            if self.enabled && i < self.bands.len() {
                out.push(self.bands[i]);
            } else {
                out.push(0);
            }
            i += 1;
        }
        assert(out@ =~= wanted_bands(self.enabled, self.bands@));
        out
    }

    /// The pre-amp in force.
    pub fn effective_preamp(&self) -> (r: u64)
        ensures
            r == wanted_preamp(self.enabled, self.preamp),
    {
        if !self.enabled {
            UNITY_PPB
        } else if self.preamp < crate::engine::PREAMP_MIN {
            crate::engine::PREAMP_MIN
        } else if self.preamp > crate::engine::PREAMP_MAX {
            crate::engine::PREAMP_MAX
        } else {
            self.preamp
        }
    }

    /// Sets one of the ten gains, clamped, and gives what was set.
    pub fn set_band_gain(&mut self, band: usize, db: i64) -> (r: i64)
        requires
            band < 10,
        ensures
            r == crate::engine::backend::band_clamped(db),
            final(self).bands@ == band_set(old(self).bands@, band as int, r),
            *final(self) == (EqualizerConfig { bands: final(self).bands, ..*old(self) }),
    {
        let gain: i64 = clamp_band(db);
        while self.bands.len() < 10
            invariant
                *self == (EqualizerConfig { bands: self.bands, ..*old(self) }),
                old(self).bands@.len() <= self.bands@.len(),
                self.bands@.len() <= 10 || self.bands@.len() == old(self).bands@.len(),
                forall|k: int|
                    0 <= k < self.bands@.len() ==> #[trigger] self.bands@[k] == (if k
                        < old(self).bands@.len() {
                        old(self).bands@[k]
                    } else {
                        0
                    }),
            decreases 10 - self.bands@.len(),
        {
            self.bands.push(0);
        }
        self.bands.set(band, gain);
        assert(self.bands@ =~= band_set(old(self).bands@, band as int, gain));
        gain
    }
}

/// Everything that is configured.
pub struct Config {
    pub playback: PlaybackConfig,
    pub behavior: BehaviorConfig,
    pub media_library: MediaLibraryConfig,
    pub disc: DiscConfig,
    pub display: DisplayConfig,
    pub visualizer: VisualizerConfig,
    pub equalizer: EqualizerConfig,
}

/// The playback settings of a fresh installation.
pub open spec fn default_playback() -> PlaybackConfig {
    PlaybackConfig {
        volume: UNITY_PPB,
        shuffle_enabled: false,
        repeat_mode: RepeatMode::Off,
        fadeout_secs: DEFAULT_FADEOUT_SECS,
        play_stats: PlayStats {
            enabled: true,
            mode: PlayStatsMode::Seconds,
            seconds: 20,
            percent: 50,
        },
        replaygain: ReplayGain {
            enabled: false,
            source: RgSource::Automatic,
            clip_protection: true,
            fallback_db: 0,
            auto_analyze: false,
            write_tags: false,
        },
    }
}

/// The plasma settings of a fresh installation.
pub open spec fn default_granite() -> GraniteConfig {
    GraniteConfig {
        speed: 1_000_000,
        palette: GranitePalette::Granite,
        feedback: 350_000,
        effect: GraniteEffect::Plasma,
        beat_sensitivity: 1_500_000,
        beat_brightness: true,
        auto_switch: true,
    }
}

/// The settings where none were ever saved.
pub open spec fn is_default(c: Config) -> bool {
    &&& c.playback == default_playback()
    &&& c.behavior == (BehaviorConfig {
        playlist_add_behavior: PlaylistAddBehavior::Append,
        autoplay_on_add: false,
    })
    &&& c.media_library.playlist_format == PlaylistFormat::M3u8
    &&& c.media_library.watch_folders
    &&& !c.media_library.auto_add_played
    &&& !c.media_library.artist_as_album_artist
    &&& !c.media_library.skip_db_load
    &&& !c.media_library.remember_search
    &&& !c.media_library.remove_missing_on_rescan
    &&& !c.media_library.compact_on_rescan
    &&& !c.media_library.rescan_on_startup
    &&& c.media_library.rescan_interval_mins == 0
    &&& forall|view: Seq<char>| #[trigger] c.media_library.last_search.holds(view) is None
    &&& c.disc.gnudb_email@ == ""@
    &&& c.disc.gnudb_submit_mode_test
    &&& c.disc.rip_dest_dir is None
    &&& c.disc.rip_mp3_quality == 1
    &&& c.disc.burn_verify
    &&& c.disc.auto_show_inserted_audio_cd
    &&& c.display.time_mode@ == "elapsed"@
    &&& c.visualizer.mode == VisualizerMode::Bars
    &&& c.visualizer.display_bands == 16
    &&& c.visualizer.bars_mirror
    &&& c.visualizer.waveform_style == WaveformStyle::Lines
    &&& c.visualizer.color_zones == 5
    &&& c.visualizer.zone_colors@.len() == 0
    &&& c.visualizer.waveform_color_zones == 5
    &&& c.visualizer.waveform_zone_colors@.len() == 0
    &&& c.visualizer.keep_screen_awake
    &&& c.visualizer.granite == default_granite()
    &&& !c.equalizer.enabled
    &&& c.equalizer.bands@ == crate::engine::backend::flat_bands()
    &&& c.equalizer.preset@ == ""@
    &&& c.equalizer.preamp == UNITY_PPB
}

impl Default for Config {
    fn default() -> (r: Config)
        ensures
            is_default(r),
    {
        Config {
            playback: PlaybackConfig {
                volume: UNITY_PPB,
                shuffle_enabled: false,
                repeat_mode: RepeatMode::Off,
                fadeout_secs: DEFAULT_FADEOUT_SECS,
                play_stats: PlayStats {
                    enabled: true,
                    mode: PlayStatsMode::Seconds,
                    seconds: 20,
                    percent: 50,
                },
                replaygain: ReplayGain {
                    enabled: false,
                    source: RgSource::Automatic,
                    clip_protection: true,
                    fallback_db: 0,
                    auto_analyze: false,
                    write_tags: false,
                },
            },
            behavior: BehaviorConfig {
                playlist_add_behavior: PlaylistAddBehavior::Append,
                autoplay_on_add: false,
            },
            media_library: MediaLibraryConfig {
                playlist_format: PlaylistFormat::M3u8,
                watch_folders: true,
                auto_add_played: false,
                artist_as_album_artist: false,
                skip_db_load: false,
                remember_search: false,
                last_search: TextMap::new(),
                remove_missing_on_rescan: false,
                compact_on_rescan: false,
                rescan_on_startup: false,
                rescan_interval_mins: 0,
            },
            disc: DiscConfig {
                gnudb_email: "".to_owned(),
                gnudb_submit_mode_test: true,
                rip_dest_dir: None,
                rip_mp3_quality: 1,
                burn_verify: true,
                auto_show_inserted_audio_cd: true,
            },
            display: DisplayConfig { time_mode: "elapsed".to_owned() },
            visualizer: VisualizerConfig {
                mode: VisualizerMode::Bars,
                display_bands: 16,
                bars_mirror: true,
                waveform_style: WaveformStyle::Lines,
                color_zones: 5,
                zone_colors: Vec::new(),
                waveform_color_zones: 5,
                waveform_zone_colors: Vec::new(),
                keep_screen_awake: true,
                granite: GraniteConfig {
                    speed: 1_000_000,
                    palette: GranitePalette::Granite,
                    feedback: 350_000,
                    effect: GraniteEffect::Plasma,
                    beat_sensitivity: 1_500_000,
                    beat_brightness: true,
                    auto_switch: true,
                },
            },
            equalizer: EqualizerConfig {
                enabled: false,
                bands: flat_band_list(),
                preset: "".to_owned(),
                preamp: UNITY_PPB,
            },
        }
    }
}

/// Ten bands at zero.
pub fn flat_band_list() -> (r: Vec<i64>)
    ensures
        r@ == crate::engine::backend::flat_bands(),
{
    let mut out: Vec<i64> = Vec::new();
    let mut i: usize = 0;
    while i < 10
        invariant
            i <= 10,
            out@.len() == i,
            forall|k: int| 0 <= k < i ==> #[trigger] out@[k] == 0,
        decreases 10 - i,
    {
        out.push(0);
        i += 1;
    }
    assert(out@ =~= crate::engine::backend::flat_bands());
    out
}

/// The album gain is used where the album is asked for, never where the track is, and with
/// the automatic source just where the list is not shuffled.
pub proof fn law_the_album_gain_is_used_where_it_is_asked_for(shuffle: bool)
    ensures
        uses_album_gain(RgSource::Album, shuffle),
        !uses_album_gain(RgSource::Track, shuffle),
        uses_album_gain(RgSource::Automatic, shuffle) == !shuffle,
{
}

/// Repeat goes from off to one song, from there to the list, and from there off again.
pub proof fn law_repeat_goes_from_song_to_list(mode: RepeatMode)
    ensures
        mode == RepeatMode::Off ==> mode.cycled() == RepeatMode::Song,
        mode == RepeatMode::Song ==> mode.cycled() == RepeatMode::Playlist,
        mode == RepeatMode::Playlist ==> mode.cycled() == RepeatMode::Off,
{
}

/// A playlist file ends as its format does.
pub proof fn law_a_playlist_file_ends_as_its_format(f: PlaylistFormat)
    ensures
        f == PlaylistFormat::M3u8 ==> f.ending() == seq!['m', '3', 'u', '8'],
        f == PlaylistFormat::M3u ==> f.ending() == seq!['m', '3', 'u'],
{
    reveal_strlit("m3u8");
    reveal_strlit("m3u");
    assert("m3u8"@ =~= seq!['m', '3', 'u', '8']);
    assert("m3u"@ =~= seq!['m', '3', 'u']);
}

/// An equalizer that is on asks for its own gains, band by band, and for its own pre-amp as
/// far as that lies between half and one and a half; one that is off asks for none and for
/// unity. There are always ten bands.
pub proof fn law_an_equalizer_asks_for_its_own_gains(
    enabled: bool,
    bands: Seq<i64>,
    preamp: u64,
    i: int,
)
    requires
        0 <= i < 10,
    ensures
        wanted_bands(enabled, bands).len() == 10,
        enabled && i < bands.len() ==> wanted_bands(enabled, bands)[i] == bands[i],
        !enabled || i >= bands.len() ==> wanted_bands(enabled, bands)[i] == 0,
        !enabled ==> wanted_preamp(enabled, preamp) == 1_000_000_000,
        enabled && 500_000_000 <= preamp <= 1_500_000_000 ==> wanted_preamp(enabled, preamp) == preamp,
        500_000_000 <= wanted_preamp(enabled, preamp) <= 1_500_000_000,
        enabled && preamp < 500_000_000 ==> wanted_preamp(enabled, preamp) == 500_000_000,
        enabled && preamp > 1_500_000_000 ==> wanted_preamp(enabled, preamp) == 1_500_000_000,
{
}

/// Setting a band sets that band and leaves the others; a list that was too short is made
/// up with zeros.
pub proof fn law_setting_a_band_leaves_the_others(bands: Seq<i64>, band: int, db: i64, i: int)
    requires
        0 <= band < 10,
        0 <= i < 10,
    ensures
        band_set(bands, band, db).len() >= 10,
        band_set(bands, band, db)[band] == db,
        i != band && i < bands.len() ==> band_set(bands, band, db)[i] == bands[i],
        i != band && i >= bands.len() ==> band_set(bands, band, db)[i] == 0,
        bands.len() >= 10 ==> band_set(bands, band, db).len() == bands.len(),
{
}

/// A fresh installation plays at full volume, in order and without repeat, fades for two
/// seconds, counts a play after twenty, and leaves the level of tracks and the equalizer
/// alone.
pub proof fn law_a_fresh_installation_plays_plainly(c: Config)
    requires
        is_default(c),
    ensures
        c.playback.volume == 1_000_000_000,
        !c.playback.shuffle_enabled,
        c.playback.repeat_mode == RepeatMode::Off,
        c.playback.fadeout_secs == 2,
        c.playback.play_stats.enabled,
        c.playback.play_stats.mode == PlayStatsMode::Seconds,
        c.playback.play_stats.seconds == 20,
        c.playback.play_stats.percent == 50,
        !c.playback.replaygain.enabled,
        c.playback.replaygain.source == RgSource::Automatic,
        c.playback.replaygain.clip_protection,
        c.playback.replaygain.fallback_db == 0,
        !c.equalizer.enabled,
        c.equalizer.preamp == 1_000_000_000,
        c.equalizer.bands@.len() == 10,
        forall|i: int| 0 <= i < 10 ==> #[trigger] c.equalizer.bands@[i] == 0,
        c.behavior.playlist_add_behavior == PlaylistAddBehavior::Append,
        !c.behavior.autoplay_on_add,
        c.visualizer.mode == VisualizerMode::Bars,
        c.visualizer.display_bands == 16,
        c.visualizer.granite.speed == 1_000_000,
        c.visualizer.granite.feedback == 350_000,
        c.visualizer.granite.beat_sensitivity == 1_500_000,
        c.visualizer.granite.palette == GranitePalette::Granite,
        c.visualizer.granite.effect == GraniteEffect::Plasma,
        c.visualizer.granite.beat_brightness,
        c.visualizer.granite.auto_switch,
{
}

/// A library of a fresh installation watches its folders and does nothing else unasked; a
/// disc is verified once burnt and submitted as a test only, and the display shows the time
/// that has run.
pub proof fn law_a_fresh_library_waits_to_be_asked(c: Config, view: Seq<char>)
    requires
        is_default(c),
    ensures
        c.media_library.watch_folders,
        !c.media_library.auto_add_played,
        !c.media_library.artist_as_album_artist,
        !c.media_library.skip_db_load,
        !c.media_library.remember_search,
        !c.media_library.remove_missing_on_rescan,
        !c.media_library.compact_on_rescan,
        !c.media_library.rescan_on_startup,
        c.media_library.rescan_interval_mins == 0,
        c.media_library.playlist_format == PlaylistFormat::M3u8,
        c.media_library.last_search.holds(view) is None,
        !c.playback.replaygain.auto_analyze,
        !c.playback.replaygain.write_tags,
        c.disc.gnudb_email@.len() == 0,
        c.disc.gnudb_submit_mode_test,
        c.disc.rip_dest_dir is None,
        c.disc.rip_mp3_quality == 1,
        c.disc.burn_verify,
        c.disc.auto_show_inserted_audio_cd,
        c.display.time_mode@ == seq!['e', 'l', 'a', 'p', 's', 'e', 'd'],
        c.visualizer.bars_mirror,
        c.visualizer.waveform_style == WaveformStyle::Lines,
        c.visualizer.color_zones == 5,
        c.visualizer.zone_colors@.len() == 0,
        c.visualizer.waveform_color_zones == 5,
        c.visualizer.waveform_zone_colors@.len() == 0,
        c.visualizer.keep_screen_awake,
        c.equalizer.preset@.len() == 0,
{
    reveal_strlit("");
    reveal_strlit("elapsed");
    assert("elapsed"@ =~= seq!['e', 'l', 'a', 'p', 's', 'e', 'd']);
}

} // verus!
