//! What the visualizers show, and how.

use crate::config;
use crate::config::{Config, VisualizerMode, WaveformStyle};
use crate::engine;
use crate::engine::{GraniteInput, PlayerState};
use crate::engine::analysis;
use crate::engine::backend::AudioBackend;
use crate::ffi::SparkampCtx;
use crate::text;
use crate::text::to_c;
use vstd::prelude::*;

verus! {

/// The magnitudes of `len` display bars; none for a null context or no bars.
/// `high` gives the frequencies of the bars past the sixteenth.
pub fn sparkamp_get_spectrum<B: AudioBackend>(
    ctx: Option<&SparkampCtx<B>>,
    len: i32,
    high: &Vec<u64>,
) -> (r: Vec<u64>)
    requires
        len <= 16 + high@.len(),
    ensures
        match ctx {
            Some(c) if len > 0 => r@ == engine::display_bands(c.player.visual(), len as nat, high@),
            _ => r@.len() == 0,
        },
{
    match ctx {
        Some(c) => if len > 0 {
            c.player.get_spectrum_display_bands(len as u32, high)
        } else {
            Vec::new()
        },
        None => Vec::new(),
    }
}

/// `len` samples for the scope; none for a null context or no samples.
pub fn sparkamp_get_waveform<B: AudioBackend>(ctx: Option<&SparkampCtx<B>>, len: i32) -> (r: Vec<i64>)
    ensures
        match ctx {
            Some(c) if len > 0 => r@ == analysis::scope_shown(c.player.visual().scope(), len as nat),
            _ => r@.len() == 0,
        },
{
    match ctx {
        Some(c) => if len > 0 {
            c.player.get_waveform_samples(len as usize)
        } else {
            Vec::new()
        },
        None => Vec::new(),
    }
}

/// A frame of the plasma visualizer: its size in bytes, how it is drawn, and
/// what from.
pub struct GraniteFrame {
    pub len: u128,
    pub config: config::GraniteConfig,
    pub input: GraniteInput,
}

/// The next frame of the plasma visualizer, of four bytes a pixel; none for a
/// null context, without a buffer or without pixels.
pub fn sparkamp_render_granite<B: AudioBackend>(
    ctx: Option<&SparkampCtx<B>>,
    buffer_given: bool,
    w: u32,
    h: u32,
) -> (r: Option<GraniteFrame>)
    ensures
        match r {
            Some(f) => {
                &&& buffer_given && w > 0 && h > 0
                &&& f.len == w * h * 4
                &&& ctx matches Some(c) && f.config == c.config.visualizer.granite && f.input.active == (
                c.player.settings().state == PlayerState::Playing) && f.input.samples@
                    == analysis::scope_shown(c.player.visual().scope(), engine::GRANITE_SAMPLES as nat)
                    && exists|at: Option<u64>| #[trigger]
                    c.player.may_be_at(at) && f.input.position == (match at {
                        Some(pos) => pos,
                        None => 0,
                    })
            },
            None => ctx is None || !buffer_given || w == 0 || h == 0,
        },
{
    let c = match ctx {
        Some(c) => c,
        None => return None,
    };
    if !buffer_given || w == 0 || h == 0 {
        return None;
    }
    assert(0 <= w * h <= 0xffff_ffff * 0xffff_ffff) by (nonlinear_arith)
        requires
            0 <= w <= 0xffff_ffff,
            0 <= h <= 0xffff_ffff,
    ;
    Some(
        GraniteFrame {
            len: (w as u128) * (h as u128) * 4,
            config: c.config.visualizer.granite,
            input: c.player.render_granite(),
        },
    )
}

/// The number of a visualizer.
pub open spec fn mode_code(m: VisualizerMode) -> int {
    match m {
        VisualizerMode::Bars => 0,
        VisualizerMode::Waveform => 1,
        VisualizerMode::Granite => 2,
    }
}

/// The visualizer of a number; any other number is the bars.
pub open spec fn mode_of(mode: i32) -> VisualizerMode {
    if mode == 1 {
        VisualizerMode::Waveform
    } else if mode == 2 {
        VisualizerMode::Granite
    } else {
        VisualizerMode::Bars
    }
}

/// The visualizer after one.
pub open spec fn mode_after(m: VisualizerMode) -> VisualizerMode {
    match m {
        VisualizerMode::Bars => VisualizerMode::Waveform,
        VisualizerMode::Waveform => VisualizerMode::Granite,
        VisualizerMode::Granite => VisualizerMode::Bars,
    }
}

/// The number of a scope style.
pub open spec fn style_code(s: WaveformStyle) -> int {
    match s {
        WaveformStyle::Lines => 0,
        WaveformStyle::Filled => 1,
    }
}

/// The scope style of a number; any other number is lines.
pub open spec fn style_of(style: i32) -> WaveformStyle {
    if style == 1 {
        WaveformStyle::Filled
    } else {
        WaveformStyle::Lines
    }
}

/// A number of color zones moved into one to six.
pub open spec fn zones_clamped(count: i32) -> u8 {
    if count < 1 {
        1
    } else if count > 6 {
        6
    } else {
        count as u8
    }
}

fn clamp_zones(count: i32) -> (r: u8)
    ensures
        r == zones_clamped(count),
{
    if count < 1 {
        1
    } else if count > 6 {
        6
    } else {
        count as u8
    }
}

/// Cycling goes through every visualizer and comes back, and every number that
/// stands for a choice reads back as that choice.
pub proof fn law_visualizers_come_round(m: VisualizerMode, s: WaveformStyle)
    ensures
        mode_after(m) != m,
        mode_after(mode_after(m)) != m,
        mode_after(mode_after(mode_after(m))) == m,
        mode_of(mode_code(m) as i32) == m,
        style_of(style_code(s) as i32) == s,
{
}

/// How many display bars are set.
pub fn sparkamp_get_spectrum_bands<B: AudioBackend>(ctx: Option<&SparkampCtx<B>>) -> (r: u32)
    ensures
        r == (match ctx {
            Some(c) => c.config.visualizer.display_bands,
            None => 16,
        }),
{
    match ctx {
        Some(c) => c.config.visualizer.display_bands,
        None => 16,
    }
}

/// The visualizer shown: 0 bars, 1 scope, 2 plasma.
pub fn sparkamp_get_viz_mode<B: AudioBackend>(ctx: Option<&SparkampCtx<B>>) -> (r: i32)
    ensures
        r == (match ctx {
            Some(c) => mode_code(c.config.visualizer.mode),
            None => 0,
        }),
{
    match ctx {
        Some(c) => match c.config.visualizer.mode {
            VisualizerMode::Bars => 0,
            VisualizerMode::Waveform => 1,
            VisualizerMode::Granite => 2,
        },
        None => 0,
    }
}

pub fn sparkamp_set_viz_mode<B: AudioBackend>(ctx: Option<&mut SparkampCtx<B>>, mode: i32)
    ensures
        ctx matches Some(c) ==> *final(c) == (SparkampCtx {
            config: Config { visualizer: config::VisualizerConfig { mode: mode_of(mode), ..c.config.visualizer }, ..c.config },
            ..*c
        }),
{
    if let Some(c) = ctx {
        c.config.visualizer.mode = if mode == 1 {
            VisualizerMode::Waveform
        } else if mode == 2 {
            VisualizerMode::Granite
        } else {
            VisualizerMode::Bars
        };
    }
}

/// Bars, then the scope, then the plasma, then bars again.
pub fn sparkamp_cycle_viz_mode<B: AudioBackend>(ctx: Option<&mut SparkampCtx<B>>)
    ensures
        ctx matches Some(c) ==> *final(c) == (SparkampCtx {
            config: Config { visualizer: config::VisualizerConfig { mode: mode_after(c.config.visualizer.mode), ..c.config.visualizer }, ..c.config },
            ..*c
        }),
{
    if let Some(c) = ctx {
        c.config.visualizer.mode = match c.config.visualizer.mode {
            VisualizerMode::Bars => VisualizerMode::Waveform,
            VisualizerMode::Waveform => VisualizerMode::Granite,
            VisualizerMode::Granite => VisualizerMode::Bars,
        };
    }
}

/// Whether bars grow both ways from the centre.
pub fn sparkamp_get_viz_mirror<B: AudioBackend>(ctx: Option<&SparkampCtx<B>>) -> (r: bool)
    ensures
        r == (match ctx {
            Some(c) => c.config.visualizer.bars_mirror,
            None => true,
        }),
{
    match ctx {
        Some(c) => c.config.visualizer.bars_mirror,
        None => true,
    }
}

pub fn sparkamp_set_viz_mirror<B: AudioBackend>(ctx: Option<&mut SparkampCtx<B>>, mirror: bool)
    ensures
        ctx matches Some(c) ==> *final(c) == (SparkampCtx {
            config: Config { visualizer: config::VisualizerConfig { bars_mirror: mirror, ..c.config.visualizer }, ..c.config },
            ..*c
        }),
{
    if let Some(c) = ctx {
        c.config.visualizer.bars_mirror = mirror;
    }
}

/// How the scope is drawn: 0 lines, 1 filled.
pub fn sparkamp_get_waveform_style<B: AudioBackend>(ctx: Option<&SparkampCtx<B>>) -> (r: i32)
    ensures
        r == (match ctx {
            Some(c) => style_code(c.config.visualizer.waveform_style),
            None => 0,
        }),
{
    match ctx {
        Some(c) => match c.config.visualizer.waveform_style {
            WaveformStyle::Lines => 0,
            WaveformStyle::Filled => 1,
        },
        None => 0,
    }
}

pub fn sparkamp_set_waveform_style<B: AudioBackend>(ctx: Option<&mut SparkampCtx<B>>, style: i32)
    ensures
        ctx matches Some(c) ==> *final(c) == (SparkampCtx {
            config: Config { visualizer: config::VisualizerConfig { waveform_style: style_of(style), ..c.config.visualizer }, ..c.config },
            ..*c
        }),
{
    if let Some(c) = ctx {
        c.config.visualizer.waveform_style = if style == 1 {
            WaveformStyle::Filled
        } else {
            WaveformStyle::Lines
        };
    }
}

/// How many color zones the bars have.
pub fn sparkamp_get_viz_zones<B: AudioBackend>(ctx: Option<&SparkampCtx<B>>) -> (r: i32)
    ensures
        r == (match ctx {
            Some(c) => c.config.visualizer.color_zones as int,
            None => 5,
        }),
{
    match ctx {
        Some(c) => c.config.visualizer.color_zones as i32,
        None => 5,
    }
}

/// Sets how many there are, moved into one to six.
pub fn sparkamp_set_viz_zones<B: AudioBackend>(ctx: Option<&mut SparkampCtx<B>>, count: i32)
    ensures
        ctx matches Some(c) ==> *final(c) == (SparkampCtx {
            config: Config { visualizer: config::VisualizerConfig { color_zones: zones_clamped(count), ..c.config.visualizer }, ..c.config },
            ..*c
        }),
{
    if let Some(c) = ctx {
        c.config.visualizer.color_zones = clamp_zones(count);
    }
}

/// The color of a zone of the bars; a dark green where none is set.
pub fn sparkamp_get_zone_color<B: AudioBackend>(ctx: Option<&SparkampCtx<B>>, zone_index: i32) -> (r: Option<
    String,
>)
    ensures
        match r {
            Some(s) => ctx matches Some(c) && s@ == (if 0 <= zone_index
                < c.config.visualizer.zone_colors@.len() {
                text::c_text(c.config.visualizer.zone_colors@[zone_index as int]@)
            } else {
                "#006600"@
            }),
            None => ctx is None,
        },
{
    match ctx {
        Some(c) => {
            if zone_index >= 0 {
                let i: usize = zone_index as usize;
                if i < c.config.visualizer.zone_colors.len() {
                    return Some(to_c(c.config.visualizer.zone_colors[i].as_str()));
                }
            }
            Some("#006600".to_owned())
        },
        None => None,
    }
}

/// Sets the color of a zone of the bars; out of range sets nothing.
pub fn sparkamp_set_zone_color<B: AudioBackend>(
    ctx: Option<&mut SparkampCtx<B>>,
    zone_index: i32,
    hex: Option<&str>,
)
    ensures
        ctx matches Some(c) ==> {
            &&& *final(c) == (SparkampCtx {
                config: Config { visualizer: config::VisualizerConfig { zone_colors: final(c).config.visualizer.zone_colors, ..c.config.visualizer }, ..c.config },
                ..*c
            })
            &&& match hex {
                Some(h) if 0 <= zone_index < c.config.visualizer.zone_colors@.len() => {
                    &&& final(c).config.visualizer.zone_colors@.len()
                        == c.config.visualizer.zone_colors@.len()
                    &&& final(c).config.visualizer.zone_colors@[zone_index as int]@ == h@
                    &&& forall|k: int|
                        0 <= k < c.config.visualizer.zone_colors@.len() && k != zone_index
                            ==> #[trigger] final(c).config.visualizer.zone_colors@[k]
                            == c.config.visualizer.zone_colors@[k]
                },
                _ => *final(c) == *c,
            }
        },
{
    match (ctx, hex) {
        (Some(c), Some(h)) => {
            if zone_index >= 0 {
                let i: usize = zone_index as usize;
                if i < c.config.visualizer.zone_colors.len() {
                    c.config.visualizer.zone_colors.set(i, h.to_owned());
                }
            }
        },
        _ => {},
    }
}

/// How many color zones the scope has.
pub fn sparkamp_get_waveform_zones<B: AudioBackend>(ctx: Option<&SparkampCtx<B>>) -> (r: i32)
    ensures
        r == (match ctx {
            Some(c) => c.config.visualizer.waveform_color_zones as int,
            None => 5,
        }),
{
    match ctx {
        Some(c) => c.config.visualizer.waveform_color_zones as i32,
        None => 5,
    }
}

/// Sets how many there are, moved into one to six.
pub fn sparkamp_set_waveform_zones<B: AudioBackend>(ctx: Option<&mut SparkampCtx<B>>, count: i32)
    ensures
        ctx matches Some(c) ==> *final(c) == (SparkampCtx {
            config: Config { visualizer: config::VisualizerConfig { waveform_color_zones: zones_clamped(count), ..c.config.visualizer }, ..c.config },
            ..*c
        }),
{
    if let Some(c) = ctx {
        c.config.visualizer.waveform_color_zones = clamp_zones(count);
    }
}

/// The color of a zone of the scope; a dark green where none is set.
pub fn sparkamp_get_waveform_zone_color<B: AudioBackend>(ctx: Option<&SparkampCtx<B>>, zone_index: i32) -> (r: Option<
    String,
>)
    ensures
        match r {
            Some(s) => ctx matches Some(c) && s@ == (if 0 <= zone_index
                < c.config.visualizer.waveform_zone_colors@.len() {
                text::c_text(c.config.visualizer.waveform_zone_colors@[zone_index as int]@)
            } else {
                "#006600"@
            }),
            None => ctx is None,
        },
{
    match ctx {
        Some(c) => {
            if zone_index >= 0 {
                let i: usize = zone_index as usize;
                if i < c.config.visualizer.waveform_zone_colors.len() {
                    return Some(to_c(c.config.visualizer.waveform_zone_colors[i].as_str()));
                }
            }
            Some("#006600".to_owned())
        },
        None => None,
    }
}

/// Sets the color of a zone of the scope; out of range sets nothing.
pub fn sparkamp_set_waveform_zone_color<B: AudioBackend>(
    ctx: Option<&mut SparkampCtx<B>>,
    zone_index: i32,
    hex: Option<&str>,
)
    ensures
        ctx matches Some(c) ==> {
            &&& *final(c) == (SparkampCtx {
                config: Config { visualizer: config::VisualizerConfig { waveform_zone_colors: final(c).config.visualizer.waveform_zone_colors, ..c.config.visualizer }, ..c.config },
                ..*c
            })
            &&& match hex {
                Some(h) if 0 <= zone_index < c.config.visualizer.waveform_zone_colors@.len() => {
                    &&& final(c).config.visualizer.waveform_zone_colors@.len()
                        == c.config.visualizer.waveform_zone_colors@.len()
                    &&& final(c).config.visualizer.waveform_zone_colors@[zone_index as int]@ == h@
                    &&& forall|k: int|
                        0 <= k < c.config.visualizer.waveform_zone_colors@.len() && k != zone_index
                            ==> #[trigger] final(c).config.visualizer.waveform_zone_colors@[k]
                            == c.config.visualizer.waveform_zone_colors@[k]
                },
                _ => *final(c) == *c,
            }
        },
{
    match (ctx, hex) {
        (Some(c), Some(h)) => {
            if zone_index >= 0 {
                let i: usize = zone_index as usize;
                if i < c.config.visualizer.waveform_zone_colors.len() {
                    c.config.visualizer.waveform_zone_colors.set(i, h.to_owned());
                }
            }
        },
        _ => {},
    }
}

/// The numbers by which visualizers and styles cross are these, and any other number stands
/// for the first of each; bars are followed by the waveform, that by the plasma, and that by
/// the bars.
pub proof fn law_visualizers_cross_by_their_numbers(v: i32)
    ensures
        mode_of(0) == VisualizerMode::Bars,
        mode_of(1) == VisualizerMode::Waveform,
        mode_of(2) == VisualizerMode::Granite,
        v < 0 || v > 2 ==> mode_of(v) == VisualizerMode::Bars,
        0 <= v <= 2 ==> mode_code(mode_of(v)) == v && mode_code(mode_after(mode_of(v))) == (v + 1) % 3,
        style_of(0) == WaveformStyle::Lines,
        style_of(1) == WaveformStyle::Filled,
        v < 0 || v > 1 ==> style_of(v) == WaveformStyle::Lines,
        0 <= v <= 1 ==> style_code(style_of(v)) == v,
{
}

/// There are one to six colour zones, and a number outside goes to the nearer end.
pub proof fn law_there_are_one_to_six_zones(count: i32)
    ensures
        1 <= zones_clamped(count) <= 6,
        1 <= count <= 6 ==> zones_clamped(count) == count,
        count < 1 ==> zones_clamped(count) == 1,
        count > 6 ==> zones_clamped(count) == 6,
{
}

} // verus!
