//! The equalizer.

use crate::config;
use crate::config::{flat_band_list, Config};
use crate::engine;
use crate::engine::backend;
use crate::engine::backend::{AudioBackend, EQ_BAND_DB_LIMIT, UNITY_PPB};
use crate::engine::{PREAMP_MAX, PREAMP_MIN};
use crate::ffi::SparkampCtx;
use crate::text;
use crate::text::to_c;
use vstd::prelude::*;

verus! {

/// A named set of ten gains, in millionths of a decibel.
pub struct EqPreset {
    pub name: String,
    pub bands: Vec<i64>,
}

/// A player once gains and a pre-amp were pushed to it.
pub open spec fn eq_pushed<B: AudioBackend>(
    after: engine::Player<B>,
    before: engine::Player<B>,
    bands: Seq<i64>,
    preamp: u64,
) -> bool {
    &&& after.wf()
    &&& after.settings() == (engine::Settings {
        eq: after.settings().eq,
        preamp,
        ..before.settings()
    })
    &&& after.settings().eq.bands() == backend::merged_bands(before.settings().eq.bands(), bands)
    &&& after.audio().curve() == (if after.settings().caps.eq {
        after.settings().eq
    } else {
        before.audio().curve()
    })
    &&& after.level_in_step()
    &&& after.visual() == before.visual()
    &&& after.audio().installed() == before.audio().installed()
    &&& after.audio().transport() == before.audio().transport()
}

/// Pushes gains and a pre-amp to the player.
fn push_eq<B: AudioBackend>(player: &mut engine::Player<B>, bands: &Vec<i64>, preamp: u64)
    requires
        old(player).wf(),
        PREAMP_MIN <= preamp <= PREAMP_MAX,
    ensures
        eq_pushed(*final(player), *old(player), bands@, preamp),
{
    player.apply_eq_bands(bands.as_slice());
    player.set_preamp(preamp as i64);
}

pub fn sparkamp_has_eq<B: AudioBackend>(ctx: Option<&SparkampCtx<B>>) -> (r: bool)
    requires
        ctx matches Some(c) ==> c.wf(),
    ensures
        r == (match ctx {
            Some(c) => c.player.audio().caps().eq,
            None => false,
        }),
{
    match ctx {
        Some(c) => c.player.has_eq(),
        None => false,
    }
}

pub fn sparkamp_get_eq_enabled<B: AudioBackend>(ctx: Option<&SparkampCtx<B>>) -> (r: bool)
    ensures
        r == (match ctx {
            Some(c) => c.config.equalizer.enabled,
            None => false,
        }),
{
    match ctx {
        Some(c) => c.config.equalizer.enabled,
        None => false,
    }
}

/// Switches the equalizer on, with the gains and the pre-amp that are set, or
/// off, to a flat curve at unity.
pub fn sparkamp_set_eq_enabled<B: AudioBackend>(ctx: Option<&mut SparkampCtx<B>>, enabled: bool)
    requires
        ctx matches Some(c) ==> c.wf(),
    ensures
        ctx matches Some(c) ==> {
            &&& final(c).wf()
            &&& final(c).config == (Config {
                equalizer: config::EqualizerConfig { enabled, ..c.config.equalizer },
                ..c.config
            })
            &&& eq_pushed(
                final(c).player,
                c.player,
                config::wanted_bands(enabled, c.config.equalizer.bands@),
                config::wanted_preamp(enabled, c.config.equalizer.preamp),
            )
            &&& *final(c) == (SparkampCtx {
                player: final(c).player,
                config: final(c).config,
                ..*c
            })
        },
{
    if let Some(c) = ctx {
        c.config.equalizer.enabled = enabled;
        let bands = c.config.equalizer.effective_bands();
        let preamp: u64 = c.config.equalizer.effective_preamp();
        push_eq(&mut c.player, &bands, preamp);
    }
}

/// The gain that is set for a band, whether or not the equalizer is on; zero out
/// of range.
pub fn sparkamp_get_eq_band<B: AudioBackend>(ctx: Option<&SparkampCtx<B>>, band: i32) -> (r: i64)
    ensures
        r == (match ctx {
            Some(c) if 0 <= band < 10 && band < c.config.equalizer.bands@.len() => c.config.equalizer.bands@[band as int],
            _ => 0,
        }),
{
    match ctx {
        Some(c) => {
            if band < 0 || band >= 10 {
                return 0;
            }
            let i: usize = band as usize;
            if i < c.config.equalizer.bands.len() {
                c.config.equalizer.bands[i]
            } else {
                0
            }
        },
        None => 0,
    }
}

/// Sets the gain of a band, clamped; heard at once where the equalizer is on.
pub fn sparkamp_set_eq_band<B: AudioBackend>(ctx: Option<&mut SparkampCtx<B>>, band: i32, db: i64)
    requires
        ctx matches Some(c) ==> c.wf(),
    ensures
        ctx matches Some(c) ==> {
            &&& final(c).wf()
            &&& if 0 <= band < 10 {
                &&& final(c).config.equalizer.bands@ == config::band_set(
                    c.config.equalizer.bands@,
                    band as int,
                    backend::band_clamped(db),
                )
                &&& *final(c) == (SparkampCtx {
                    player: final(c).player,
                    config: Config {
                        equalizer: config::EqualizerConfig {
                            bands: final(c).config.equalizer.bands,
                            ..c.config.equalizer
                        },
                        ..c.config
                    },
                    ..*c
                })
                &&& if c.config.equalizer.enabled {
                    &&& final(c).player.settings() == (engine::Settings {
                        eq: final(c).player.settings().eq,
                        ..c.player.settings()
                    })
                    &&& final(c).player.settings().eq.bands() == c.player.settings().eq.bands().update(
                        band as int,
                        backend::band_clamped(db),
                    )
                    &&& final(c).player.curve_pushed(&c.player)
                } else {
                    final(c).player == c.player
                }
            } else {
                *final(c) == *c
            }
        },
{
    if let Some(c) = ctx {
        if band < 0 || band >= 10 {
            return ;
        }
        let gain: i64 = c.config.equalizer.set_band_gain(band as usize, db);
        proof {
            backend::lemma_band_clamped_twice(db);
        }
        if c.config.equalizer.enabled {
            c.player.set_eq_band(band as usize, gain);
        }
    }
}

/// What a preset leaves of the session it found.
pub open spec fn preset_applied<B: AudioBackend>(
    after: SparkampCtx<B>,
    before: SparkampCtx<B>,
    preset: EqPreset,
) -> bool {
    &&& after.config.equalizer.preset@ == preset.name@
    &&& after.config.equalizer.bands@ == preset.bands@
    &&& after == (SparkampCtx {
        player: after.player,
        config: Config {
            equalizer: config::EqualizerConfig {
                preset: after.config.equalizer.preset,
                bands: after.config.equalizer.bands,
                ..before.config.equalizer
            },
            ..before.config
        },
        ..before
    })
    &&& if before.config.equalizer.enabled {
        &&& after.player.settings() == (engine::Settings {
            eq: after.player.settings().eq,
            ..before.player.settings()
        })
        &&& after.player.settings().eq.bands() == backend::merged_bands(
            before.player.settings().eq.bands(),
            preset.bands@,
        )
        &&& after.player.curve_pushed(&before.player)
    } else {
        after.player == before.player
    }
}

/// Takes over one of the presets; heard at once where the equalizer is on.
pub fn sparkamp_apply_eq_preset<B: AudioBackend>(
    ctx: Option<&mut SparkampCtx<B>>,
    presets: &Vec<EqPreset>,
    preset_index: i32,
)
    requires
        ctx matches Some(c) ==> c.wf(),
    ensures
        ctx matches Some(c) ==> {
            &&& final(c).wf()
            &&& if 0 <= preset_index < presets@.len() {
                preset_applied(*final(c), *c, presets@[preset_index as int])
            } else {
                *final(c) == *c
            }
        },
{
    if let Some(c) = ctx {
        if preset_index < 0 {
            return ;
        }
        let i: usize = preset_index as usize;
        if i >= presets.len() {
            return ;
        }
        c.config.equalizer.preset = presets[i].name.clone();
        c.config.equalizer.bands = copied(&presets[i].bands);
        if c.config.equalizer.enabled {
            c.player.apply_eq_bands(presets[i].bands.as_slice());
        }
    }
}

fn copied(bands: &Vec<i64>) -> (r: Vec<i64>)
    ensures
        r@ == bands@,
{
    let mut out: Vec<i64> = Vec::new();
    let mut i: usize = 0;
    while i < bands.len()
        invariant
            i <= bands@.len(),
            out@ == bands@.subrange(0, i as int),
        decreases bands@.len() - i,
    {
        out.push(bands[i]);
        assert(out@ =~= bands@.subrange(0, i + 1));
        i += 1;
    }
    assert(out@ =~= bands@);
    out
}

pub fn sparkamp_eq_preset_count(presets: &Vec<EqPreset>) -> (r: usize)
    ensures
        r == presets@.len(),
{
    presets.len()
}

/// The name of a preset, empty out of range.
pub fn sparkamp_eq_preset_name(presets: &Vec<EqPreset>, preset_index: i32) -> (r: String)
    ensures
        r@ == (if 0 <= preset_index < presets@.len() {
            text::c_text(presets@[preset_index as int].name@)
        } else {
            Seq::empty()
        }),
{
    if preset_index >= 0 {
        let i: usize = preset_index as usize;
        if i < presets.len() {
            return to_c(presets[i].name.as_str());
        }
    }
    let none = String::new();
    assert(none@ =~= Seq::empty());
    none
}

/// The pre-amp in force, in parts per billion.
pub fn sparkamp_get_preamp<B: AudioBackend>(ctx: Option<&SparkampCtx<B>>) -> (r: u64)
    ensures
        r == (match ctx {
            Some(c) => config::wanted_preamp(c.config.equalizer.enabled, c.config.equalizer.preamp),
            None => UNITY_PPB,
        }),
{
    match ctx {
        Some(c) => c.config.equalizer.effective_preamp(),
        None => UNITY_PPB,
    }
}

/// Sets the pre-amp, clamped; heard at once where the equalizer is on.
pub fn sparkamp_set_preamp<B: AudioBackend>(ctx: Option<&mut SparkampCtx<B>>, multiplier: i64)
    requires
        ctx matches Some(c) ==> c.wf(),
    ensures
        ctx matches Some(c) ==> {
            let level = backend::clamped(multiplier as int, PREAMP_MIN as int, PREAMP_MAX as int) as u64;
            &&& final(c).wf()
            &&& final(c).config == (Config {
                equalizer: config::EqualizerConfig { preamp: level, ..c.config.equalizer },
                ..c.config
            })
            &&& *final(c) == (SparkampCtx {
                player: final(c).player,
                config: final(c).config,
                ..*c
            })
            &&& if c.config.equalizer.enabled {
                &&& final(c).player.settings() == (engine::Settings {
                    preamp: level,
                    ..c.player.settings()
                })
                &&& final(c).player.level_in_step()
                &&& final(c).player.same_path(&c.player)
            } else {
                final(c).player == c.player
            }
        },
{
    if let Some(c) = ctx {
        let level: u64 = if multiplier < PREAMP_MIN as i64 {
            PREAMP_MIN
        } else if multiplier > PREAMP_MAX as i64 {
            PREAMP_MAX
        } else {
            multiplier as u64
        };
        c.config.equalizer.preamp = level;
        if c.config.equalizer.enabled {
            c.player.set_preamp(level as i64);
        }
    }
}

/// Back to a flat curve at unity with no preset.
pub fn sparkamp_reset_eq<B: AudioBackend>(ctx: Option<&mut SparkampCtx<B>>)
    requires
        ctx matches Some(c) ==> c.wf(),
    ensures
        ctx matches Some(c) ==> {
            &&& final(c).wf()
            &&& final(c).config.equalizer.bands@ == backend::flat_bands()
            &&& final(c).config.equalizer.preset@ == Seq::<char>::empty()
            &&& final(c).config.equalizer.preamp == UNITY_PPB
            &&& final(c).config.equalizer.enabled == c.config.equalizer.enabled
            &&& *final(c) == (SparkampCtx {
                player: final(c).player,
                config: Config { equalizer: final(c).config.equalizer, ..c.config },
                ..*c
            })
            &&& if c.config.equalizer.enabled {
                eq_pushed(final(c).player, c.player, backend::flat_bands(), UNITY_PPB)
            } else {
                final(c).player == c.player
            }
        },
{
    if let Some(c) = ctx {
        let flat = flat_band_list();
        c.config.equalizer.preset = String::new();
        assert(c.config.equalizer.preset@ =~= Seq::<char>::empty());
        c.config.equalizer.preamp = UNITY_PPB;
        if c.config.equalizer.enabled {
            push_eq(&mut c.player, &flat, UNITY_PPB);
        }
        c.config.equalizer.bands = flat;
    }
}

/// An equalizer that is switched off is flat at unity, whatever is set and
/// whatever curve was in force.
pub proof fn law_an_equalizer_that_is_off_is_flat(bands: Seq<i64>, preamp: u64, before: Seq<i64>)
    requires
        before.len() == 10,
    ensures
        backend::merged_bands(before, config::wanted_bands(false, bands)) == backend::flat_bands(),
        config::wanted_preamp(false, preamp) == UNITY_PPB,
{
    assert(backend::merged_bands(before, config::wanted_bands(false, bands)) =~= backend::flat_bands());
}

/// The label of a band, empty out of range.
pub fn sparkamp_eq_band_label(labels: &Vec<String>, band: i32) -> (r: String)
    ensures
        r@ == (if 0 <= band < labels@.len() {
            text::c_text(labels@[band as int]@)
        } else {
            Seq::empty()
        }),
{
    if band >= 0 {
        let i: usize = band as usize;
        if i < labels.len() {
            return to_c(labels[i].as_str());
        }
    }
    let none = String::new();
    assert(none@ =~= Seq::empty());
    none
}

/// The greatest gain of a band, either way, in millionths of a decibel.
pub fn sparkamp_eq_band_db_limit() -> (r: i64)
    ensures
        r == EQ_BAND_DB_LIMIT,
{
    EQ_BAND_DB_LIMIT
}

/// The least pre-amp, in parts per billion.
pub fn sparkamp_preamp_min() -> (r: u64)
    ensures
        r == PREAMP_MIN,
        2 * r == 1_000_000_000,
{
    PREAMP_MIN
}

/// The greatest pre-amp, in parts per billion.
pub fn sparkamp_preamp_max() -> (r: u64)
    ensures
        r == PREAMP_MAX,
        2 * r == 3 * 1_000_000_000,
{
    PREAMP_MAX
}

/// A preset that is applied is the curve that is set and, where the equalizer is on, the one
/// that is heard, band by band; where it is off nothing is heard of it.
pub proof fn law_a_preset_is_heard_where_the_equalizer_is_on<B: AudioBackend>(
    after: SparkampCtx<B>,
    before: SparkampCtx<B>,
    preset: EqPreset,
    i: int,
)
    requires
        preset_applied(after, before, preset),
        0 <= i < 10,
        i < preset.bands@.len(),
        -12_000_000 <= preset.bands@[i] <= 12_000_000,
    ensures
        after.config.equalizer.preset@ == preset.name@,
        after.config.equalizer.bands@ == preset.bands@,
        after.config.equalizer.enabled == before.config.equalizer.enabled,
        after.config.equalizer.preamp == before.config.equalizer.preamp,
        before.config.equalizer.enabled ==> after.player.settings().eq.bands()[i] == preset.bands@[i],
        !before.config.equalizer.enabled ==> after.player == before.player,
{
}

/// Gains that are pushed are heard as they are, band by band, with the pre-amp, on a path
/// that has an equalizer.
pub proof fn law_pushed_gains_are_heard<B: AudioBackend>(
    after: engine::Player<B>,
    before: engine::Player<B>,
    bands: Seq<i64>,
    preamp: u64,
    i: int,
)
    requires
        eq_pushed(after, before, bands, preamp),
        0 <= i < 10,
    ensures
        i < bands.len() && -12_000_000 <= bands[i] <= 12_000_000 ==> after.settings().eq.bands()[i]
            == bands[i],
        i >= bands.len() ==> after.settings().eq.bands()[i] == before.settings().eq.bands()[i],
        after.settings().preamp == preamp,
        after.settings().caps.eq ==> after.audio().curve() == after.settings().eq,
        after.settings().volume == before.settings().volume,
{
}

} // verus!
