//! The plasma visualizer.

use crate::config;
use crate::config::{Config, GraniteEffect, GranitePalette};
use crate::engine::backend;
use crate::engine::backend::AudioBackend;
use crate::ffi::SparkampCtx;
use vstd::prelude::*;

verus! {

/// The number of a palette.
pub open spec fn palette_code(x: GranitePalette) -> int {
    match x {
        GranitePalette::Granite => 0,
        GranitePalette::Fire => 1,
        GranitePalette::Neon => 2,
        GranitePalette::Ocean => 3,
        GranitePalette::Violet => 4,
        GranitePalette::Sunset => 5,
        GranitePalette::Crt => 6,
        GranitePalette::Spectrum => 7,
    }
}

/// The number of a palette.
pub fn palette_number(x: GranitePalette) -> (r: i32)
    ensures
        r == palette_code(x),
{
    match x {
        GranitePalette::Granite => 0,
        GranitePalette::Fire => 1,
        GranitePalette::Neon => 2,
        GranitePalette::Ocean => 3,
        GranitePalette::Violet => 4,
        GranitePalette::Sunset => 5,
        GranitePalette::Crt => 6,
        GranitePalette::Spectrum => 7,
    }
}

/// The choice that a number stands for; any other number is the first.
pub open spec fn palette_of(v: i32) -> GranitePalette {
    if v == 1 {
        GranitePalette::Fire
    } else if v == 2 {
        GranitePalette::Neon
    } else if v == 3 {
        GranitePalette::Ocean
    } else if v == 4 {
        GranitePalette::Violet
    } else if v == 5 {
        GranitePalette::Sunset
    } else if v == 6 {
        GranitePalette::Crt
    } else if v == 7 {
        GranitePalette::Spectrum
    } else {
        GranitePalette::Granite
    }
}

/// The choice that a number stands for.
pub fn palette_chosen(v: i32) -> (r: GranitePalette)
    ensures
        r == palette_of(v),
{
    if v == 1 {
        GranitePalette::Fire
    } else if v == 2 {
        GranitePalette::Neon
    } else if v == 3 {
        GranitePalette::Ocean
    } else if v == 4 {
        GranitePalette::Violet
    } else if v == 5 {
        GranitePalette::Sunset
    } else if v == 6 {
        GranitePalette::Crt
    } else if v == 7 {
        GranitePalette::Spectrum
    } else {
        GranitePalette::Granite
    }
}

/// The number of an effect.
pub open spec fn effect_code(x: GraniteEffect) -> int {
    match x {
        GraniteEffect::Plasma => 0,
        GraniteEffect::Tunnel => 1,
        GraniteEffect::Swirl => 2,
        GraniteEffect::RadialSweep => 3,
        GraniteEffect::Cells => 4,
        GraniteEffect::Explode => 5,
        GraniteEffect::Ripple => 6,
        GraniteEffect::Shear => 7,
        GraniteEffect::Kaleido => 8,
        GraniteEffect::GravityWell => 9,
        GraniteEffect::Drain => 10,
        GraniteEffect::Flag => 11,
    }
}

/// The number of an effect.
pub fn effect_number(x: GraniteEffect) -> (r: i32)
    ensures
        r == effect_code(x),
{
    match x {
        GraniteEffect::Plasma => 0,
        GraniteEffect::Tunnel => 1,
        GraniteEffect::Swirl => 2,
        GraniteEffect::RadialSweep => 3,
        GraniteEffect::Cells => 4,
        GraniteEffect::Explode => 5,
        GraniteEffect::Ripple => 6,
        GraniteEffect::Shear => 7,
        GraniteEffect::Kaleido => 8,
        GraniteEffect::GravityWell => 9,
        GraniteEffect::Drain => 10,
        GraniteEffect::Flag => 11,
    }
}

/// The choice that a number stands for; any other number is the first.
pub open spec fn effect_of(v: i32) -> GraniteEffect {
    if v == 1 {
        GraniteEffect::Tunnel
    } else if v == 2 {
        GraniteEffect::Swirl
    } else if v == 3 {
        GraniteEffect::RadialSweep
    } else if v == 4 {
        GraniteEffect::Cells
    } else if v == 5 {
        GraniteEffect::Explode
    } else if v == 6 {
        GraniteEffect::Ripple
    } else if v == 7 {
        GraniteEffect::Shear
    } else if v == 8 {
        GraniteEffect::Kaleido
    } else if v == 9 {
        GraniteEffect::GravityWell
    } else if v == 10 {
        GraniteEffect::Drain
    } else if v == 11 {
        GraniteEffect::Flag
    } else {
        GraniteEffect::Plasma
    }
}

/// The choice that a number stands for.
pub fn effect_chosen(v: i32) -> (r: GraniteEffect)
    ensures
        r == effect_of(v),
{
    if v == 1 {
        GraniteEffect::Tunnel
    } else if v == 2 {
        GraniteEffect::Swirl
    } else if v == 3 {
        GraniteEffect::RadialSweep
    } else if v == 4 {
        GraniteEffect::Cells
    } else if v == 5 {
        GraniteEffect::Explode
    } else if v == 6 {
        GraniteEffect::Ripple
    } else if v == 7 {
        GraniteEffect::Shear
    } else if v == 8 {
        GraniteEffect::Kaleido
    } else if v == 9 {
        GraniteEffect::GravityWell
    } else if v == 10 {
        GraniteEffect::Drain
    } else if v == 11 {
        GraniteEffect::Flag
    } else {
        GraniteEffect::Plasma
    }
}

/// Every number that stands for a choice reads back as that choice.
pub proof fn law_plasma_choices_read_back(p: GranitePalette, e: GraniteEffect)
    ensures
        palette_of(palette_code(p) as i32) == p,
        effect_of(effect_code(e) as i32) == e,
{
}

fn clamp_factor(v: i64, lo: i64, hi: i64) -> (r: i64)
    requires
        lo <= hi,
    ensures
        r == backend::clamped(v as int, lo as int, hi as int),
{
    if v < lo {
        lo
    } else if v > hi {
        hi
    } else {
        v
    }
}

/// The speed, in millionths.
pub fn sparkamp_get_granite_speed<B: AudioBackend>(ctx: Option<&SparkampCtx<B>>) -> (r: i64)
    ensures
        r == (match ctx {
            Some(c) => c.config.visualizer.granite.speed,
            None => 1_000_000,
        }),
{
    match ctx {
        Some(c) => c.config.visualizer.granite.speed,
        None => 1_000_000,
    }
}

/// Sets it, moved into its range.
pub fn sparkamp_set_granite_speed<B: AudioBackend>(ctx: Option<&mut SparkampCtx<B>>, value: i64)
    ensures
        ctx matches Some(c) ==> *final(c) == (SparkampCtx {
            config: Config { visualizer: config::VisualizerConfig { granite: config::GraniteConfig { speed: backend::clamped(value as int, 100_000, 5_000_000) as i64, ..c.config.visualizer.granite }, ..c.config.visualizer }, ..c.config },
            ..*c
        }),
{
    if let Some(c) = ctx {
        c.config.visualizer.granite.speed = clamp_factor(value, 100_000, 5_000_000);
    }
}

/// How much of a frame stays, in millionths.
pub fn sparkamp_get_granite_feedback<B: AudioBackend>(ctx: Option<&SparkampCtx<B>>) -> (r: i64)
    ensures
        r == (match ctx {
            Some(c) => c.config.visualizer.granite.feedback,
            None => 350_000,
        }),
{
    match ctx {
        Some(c) => c.config.visualizer.granite.feedback,
        None => 350_000,
    }
}

/// Sets it, moved into its range.
pub fn sparkamp_set_granite_feedback<B: AudioBackend>(ctx: Option<&mut SparkampCtx<B>>, value: i64)
    ensures
        ctx matches Some(c) ==> *final(c) == (SparkampCtx {
            config: Config { visualizer: config::VisualizerConfig { granite: config::GraniteConfig { feedback: backend::clamped(value as int, 0, 900_000) as i64, ..c.config.visualizer.granite }, ..c.config.visualizer }, ..c.config },
            ..*c
        }),
{
    if let Some(c) = ctx {
        c.config.visualizer.granite.feedback = clamp_factor(value, 0, 900_000);
    }
}

/// How much a beat stands out, in millionths.
pub fn sparkamp_get_granite_beat_sensitivity<B: AudioBackend>(ctx: Option<&SparkampCtx<B>>) -> (r: i64)
    ensures
        r == (match ctx {
            Some(c) => c.config.visualizer.granite.beat_sensitivity,
            None => 1_500_000,
        }),
{
    match ctx {
        Some(c) => c.config.visualizer.granite.beat_sensitivity,
        None => 1_500_000,
    }
}

/// Sets it, moved into its range.
pub fn sparkamp_set_granite_beat_sensitivity<B: AudioBackend>(ctx: Option<&mut SparkampCtx<B>>, value: i64)
    ensures
        ctx matches Some(c) ==> *final(c) == (SparkampCtx {
            config: Config { visualizer: config::VisualizerConfig { granite: config::GraniteConfig { beat_sensitivity: backend::clamped(value as int, 1_050_000, 3_000_000) as i64, ..c.config.visualizer.granite }, ..c.config.visualizer }, ..c.config },
            ..*c
        }),
{
    if let Some(c) = ctx {
        c.config.visualizer.granite.beat_sensitivity = clamp_factor(value, 1_050_000, 3_000_000);
    }
}

/// The palette.
pub fn sparkamp_get_granite_palette<B: AudioBackend>(ctx: Option<&SparkampCtx<B>>) -> (r: i32)
    ensures
        r == (match ctx {
            Some(c) => palette_code(c.config.visualizer.granite.palette),
            None => 0,
        }),
{
    match ctx {
        Some(c) => palette_number(c.config.visualizer.granite.palette),
        None => 0,
    }
}

/// Sets the palette. What was chosen goes to the renderer too, which owns the
/// palette while effects switch by themselves.
pub fn sparkamp_set_granite_palette<B: AudioBackend>(
    ctx: Option<&mut SparkampCtx<B>>,
    palette: i32,
) -> (r: Option<GranitePalette>)
    ensures
        r == (match ctx {
            Some(_) => Some(palette_of(palette)),
            None => None,
        }),
        ctx matches Some(c) ==> *final(c) == (SparkampCtx {
            config: Config { visualizer: config::VisualizerConfig { granite: config::GraniteConfig { palette: palette_of(palette), ..c.config.visualizer.granite }, ..c.config.visualizer }, ..c.config },
            ..*c
        }),
{
    match ctx {
        Some(c) => {
            let chosen = palette_chosen(palette);
            c.config.visualizer.granite.palette = chosen;
            Some(chosen)
        },
        None => None,
    }
}

/// The effect on screen: the one that is set, or, where effects switch by
/// themselves, the renderer's, which `live` names once it has drawn.
pub fn sparkamp_get_granite_effect<B: AudioBackend>(
    ctx: Option<&SparkampCtx<B>>,
    live: Option<GraniteEffect>,
) -> (r: i32)
    ensures
        r == (match ctx {
            Some(c) => effect_code(
                match live {
                    Some(e) if c.config.visualizer.granite.auto_switch => e,
                    _ => c.config.visualizer.granite.effect,
                },
            ),
            None => 0,
        }),
{
    match ctx {
        Some(c) => {
            let shown = match live {
                Some(e) => if c.config.visualizer.granite.auto_switch {
                    e
                } else {
                    c.config.visualizer.granite.effect
                },
                None => c.config.visualizer.granite.effect,
            };
            effect_number(shown)
        },
        None => 0,
    }
}

/// Sets the effect. What was chosen goes to the renderer too.
pub fn sparkamp_set_granite_effect<B: AudioBackend>(
    ctx: Option<&mut SparkampCtx<B>>,
    effect: i32,
) -> (r: Option<GraniteEffect>)
    ensures
        r == (match ctx {
            Some(_) => Some(effect_of(effect)),
            None => None,
        }),
        ctx matches Some(c) ==> *final(c) == (SparkampCtx {
            config: Config { visualizer: config::VisualizerConfig { granite: config::GraniteConfig { effect: effect_of(effect), ..c.config.visualizer.granite }, ..c.config.visualizer }, ..c.config },
            ..*c
        }),
{
    match ctx {
        Some(c) => {
            let chosen = effect_chosen(effect);
            c.config.visualizer.granite.effect = chosen;
            Some(chosen)
        },
        None => None,
    }
}

/// Takes over the effect that the renderer drew at random, so that a pinned
/// effect follows. Its number, or minus one where the renderer has not drawn yet.
pub fn sparkamp_granite_random_effect<B: AudioBackend>(
    ctx: Option<&mut SparkampCtx<B>>,
    drawn: Option<GraniteEffect>,
) -> (r: i32)
    ensures
        r == (match (ctx, drawn) {
            (Some(_), Some(e)) => effect_code(e),
            _ => -1,
        }),
        ctx matches Some(c) ==> *final(c) == (match drawn {
            Some(e) => SparkampCtx {
                config: Config { visualizer: config::VisualizerConfig { granite: config::GraniteConfig { effect: e, ..c.config.visualizer.granite }, ..c.config.visualizer }, ..c.config },
                ..*c
            },
            None => *c,
        }),
{
    match (ctx, drawn) {
        (Some(c), Some(e)) => {
            c.config.visualizer.granite.effect = e;
            effect_number(e)
        },
        _ => -1,
    }
}

/// The tempo that the renderer estimates, in thousandths of a beat a minute;
/// zero while unknown.
pub fn sparkamp_get_granite_bpm<B: AudioBackend>(ctx: Option<&SparkampCtx<B>>, estimate: Option<u32>) -> (r:
    u32)
    ensures
        r == (match (ctx, estimate) {
            (Some(_), Some(bpm)) => bpm,
            _ => 0,
        }),
{
    match (ctx, estimate) {
        (Some(_), Some(bpm)) => bpm,
        _ => 0,
    }
}

/// The beats in a measure that the renderer estimates; zero while unknown.
pub fn sparkamp_get_granite_meter<B: AudioBackend>(
    ctx: Option<&SparkampCtx<B>>,
    estimate: Option<u8>,
) -> (r: i32)
    ensures
        r == (match (ctx, estimate) {
            (Some(_), Some(beats)) => beats as int,
            _ => 0,
        }),
{
    match (ctx, estimate) {
        (Some(_), Some(beats)) => beats as i32,
        _ => 0,
    }
}

/// Whether the screen stays awake while the visualizer fills it.
pub fn sparkamp_get_keep_screen_awake<B: AudioBackend>(ctx: Option<&SparkampCtx<B>>) -> (r: bool)
    ensures
        r == (match ctx {
            Some(c) => c.config.visualizer.keep_screen_awake,
            None => true,
        }),
{
    match ctx {
        Some(c) => c.config.visualizer.keep_screen_awake,
        None => true,
    }
}

pub fn sparkamp_set_keep_screen_awake<B: AudioBackend>(ctx: Option<&mut SparkampCtx<B>>, on: bool)
    ensures
        ctx matches Some(c) ==> *final(c) == (SparkampCtx {
            config: Config { visualizer: config::VisualizerConfig { keep_screen_awake: on, ..c.config.visualizer }, ..c.config },
            ..*c
        }),
{
    if let Some(c) = ctx {
        c.config.visualizer.keep_screen_awake = on;
    }
}

/// Whether a beat brightens the scope.
pub fn sparkamp_get_granite_beat_brightness<B: AudioBackend>(ctx: Option<&SparkampCtx<B>>) -> (r: bool)
    ensures
        r == (match ctx {
            Some(c) => c.config.visualizer.granite.beat_brightness,
            None => true,
        }),
{
    match ctx {
        Some(c) => c.config.visualizer.granite.beat_brightness,
        None => true,
    }
}

pub fn sparkamp_set_granite_beat_brightness<B: AudioBackend>(ctx: Option<&mut SparkampCtx<B>>, on: bool)
    ensures
        ctx matches Some(c) ==> *final(c) == (SparkampCtx {
            config: Config { visualizer: config::VisualizerConfig { granite: config::GraniteConfig { beat_brightness: on, ..c.config.visualizer.granite }, ..c.config.visualizer }, ..c.config },
            ..*c
        }),
{
    if let Some(c) = ctx {
        c.config.visualizer.granite.beat_brightness = on;
    }
}

/// Whether effects switch by themselves.
pub fn sparkamp_get_granite_auto_switch<B: AudioBackend>(ctx: Option<&SparkampCtx<B>>) -> (r: bool)
    ensures
        r == (match ctx {
            Some(c) => c.config.visualizer.granite.auto_switch,
            None => true,
        }),
{
    match ctx {
        Some(c) => c.config.visualizer.granite.auto_switch,
        None => true,
    }
}

pub fn sparkamp_set_granite_auto_switch<B: AudioBackend>(ctx: Option<&mut SparkampCtx<B>>, on: bool)
    ensures
        ctx matches Some(c) ==> *final(c) == (SparkampCtx {
            config: Config { visualizer: config::VisualizerConfig { granite: config::GraniteConfig { auto_switch: on, ..c.config.visualizer.granite }, ..c.config.visualizer }, ..c.config },
            ..*c
        }),
{
    if let Some(c) = ctx {
        c.config.visualizer.granite.auto_switch = on;
    }
}

/// The numbers by which palettes and effects cross are these, and any other number stands
/// for the first of each.
pub proof fn law_plasma_choices_cross_by_their_numbers(v: i32)
    ensures
        palette_of(0) == GranitePalette::Granite,
        palette_of(1) == GranitePalette::Fire,
        palette_of(2) == GranitePalette::Neon,
        palette_of(3) == GranitePalette::Ocean,
        palette_of(4) == GranitePalette::Violet,
        palette_of(5) == GranitePalette::Sunset,
        palette_of(6) == GranitePalette::Crt,
        palette_of(7) == GranitePalette::Spectrum,
        v < 0 || v > 7 ==> palette_of(v) == GranitePalette::Granite,
        0 <= v <= 7 ==> palette_code(palette_of(v)) == v,
        effect_of(0) == GraniteEffect::Plasma,
        effect_of(1) == GraniteEffect::Tunnel,
        effect_of(2) == GraniteEffect::Swirl,
        effect_of(3) == GraniteEffect::RadialSweep,
        effect_of(4) == GraniteEffect::Cells,
        effect_of(5) == GraniteEffect::Explode,
        effect_of(6) == GraniteEffect::Ripple,
        effect_of(7) == GraniteEffect::Shear,
        effect_of(8) == GraniteEffect::Kaleido,
        effect_of(9) == GraniteEffect::GravityWell,
        effect_of(10) == GraniteEffect::Drain,
        effect_of(11) == GraniteEffect::Flag,
        v < 0 || v > 11 ==> effect_of(v) == GraniteEffect::Plasma,
        0 <= v <= 11 ==> effect_code(effect_of(v)) == v,
{
}

} // verus!
