//! The display options: colours and the scale of the board.

use crate::pattern::{SCALE_MAX, SCALE_MIN};
use vstd::prelude::*;

verus! {

/// A colour as red, green, blue and alpha channels.
#[derive(Clone, Copy, Debug, PartialEq, Eq, Structural)]
pub struct Rgba {
    pub r: u8,
    pub g: u8,
    pub b: u8,
    pub a: u8,
}

/// The colour that four channel values give, each in `0..=255`.
pub open spec fn channels_color(v: Seq<i64>) -> Option<Rgba> {
    if v.len() == 4 && forall|i: int| 0 <= i < 4 ==> 0 <= #[trigger] v[i] <= 255 {
        Some(Rgba { r: v[0] as u8, g: v[1] as u8, b: v[2] as u8, a: v[3] as u8 })
    } else {
        None
    }
}

/// `v` held within `lo..=hi`.
pub open spec fn clamped(v: int, lo: int, hi: int) -> int {
    if v < lo {
        lo
    } else if v > hi {
        hi
    } else {
        v
    }
}

/// The colour of four channel values, or `None` where there are not
/// exactly four or one lies outside `0..=255`.
pub fn color_from_channels(v: &Vec<i64>) -> (r: Option<Rgba>)
    ensures
        r == channels_color(v@),
{
    if v.len() != 4 {
        return None;
    }
    let mut i: usize = 0;
    while i < 4
        invariant
            v@.len() == 4,
            i <= 4,
            forall|j: int| 0 <= j < i ==> 0 <= #[trigger] v@[j] <= 255,
        decreases 4 - i,
    {
        if v[i] < 0 || v[i] > 255 {
            return None;
        }
        i = i + 1;
    }
    Some(Rgba { r: v[0] as u8, g: v[1] as u8, b: v[2] as u8, a: v[3] as u8 })
}

/// Colours of the board and the overlays, and the scale of the board in
/// percent.
#[derive(Clone, Copy, Debug, PartialEq, Eq, Structural)]
pub struct GameSettings {
    pub filled_color: Rgba,
    pub empty_color: Rgba,
    pub border_color: Rgba,
    pub crosshair_color: Rgba,
    pub score_color: Rgba,
    pub scale: u32,
}

impl GameSettings {
    /// The options used when no options file exists.
    pub fn defaults() -> (r: GameSettings)
        ensures
            r.filled_color == (Rgba { r: 45, g: 55, b: 65, a: 255 }),
            r.empty_color == (Rgba { r: 40, g: 130, b: 115, a: 255 }),
            r.border_color == (Rgba { r: 255, g: 255, b: 255, a: 255 }),
            r.crosshair_color == (Rgba { r: 255, g: 255, b: 255, a: 255 }),
            r.score_color == (Rgba { r: 255, g: 255, b: 255, a: 255 }),
            r.scale == 100,
    {
        let white = Rgba { r: 255, g: 255, b: 255, a: 255 };
        GameSettings {
            filled_color: Rgba { r: 45, g: 55, b: 65, a: 255 },
            empty_color: Rgba { r: 40, g: 130, b: 115, a: 255 },
            border_color: white,
            crosshair_color: white,
            score_color: white,
            scale: 100,
        }
    }

    /// Options from the five channel lists of an options file and its scale
    /// in percent, held within the scale bounds; `None` where a list is not
    /// a colour.
    pub fn from_options(
        tile_filled: &Vec<i64>,
        tile_empty: &Vec<i64>,
        tile_border: &Vec<i64>,
        crosshair: &Vec<i64>,
        score_color: &Vec<i64>,
        scale: i64,
    ) -> (r: Option<GameSettings>)
        ensures
            r is Some <==> channels_color(tile_filled@) is Some && channels_color(tile_empty@) is Some
                && channels_color(tile_border@) is Some && channels_color(crosshair@) is Some
                && channels_color(score_color@) is Some,
            r matches Some(o) ==> {
                &&& Some(o.filled_color) == channels_color(tile_filled@)
                &&& Some(o.empty_color) == channels_color(tile_empty@)
                &&& Some(o.border_color) == channels_color(tile_border@)
                &&& Some(o.crosshair_color) == channels_color(crosshair@)
                &&& Some(o.score_color) == channels_color(score_color@)
                &&& o.scale == clamped(scale as int, SCALE_MIN as int, SCALE_MAX as int)
            },
    {
        let filled = color_from_channels(tile_filled);
        let empty = color_from_channels(tile_empty);
        let border = color_from_channels(tile_border);
        let cross = color_from_channels(crosshair);
        let score = color_from_channels(score_color);
        let s: u32 = if scale < SCALE_MIN as i64 {
            SCALE_MIN
        } else if scale > SCALE_MAX as i64 {
            SCALE_MAX
        } else {
            scale as u32
        };
        match (filled, empty, border, cross, score) {
            (Some(f), Some(e), Some(b), Some(c), Some(sc)) => Some(
                GameSettings {
                    filled_color: f,
                    empty_color: e,
                    border_color: b,
                    crosshair_color: c,
                    score_color: sc,
                    scale: s,
                },
            ),
            _ => None,
        }
    }
}

/// The settings screen, which only shows the key bindings.
#[derive(Clone, Copy, Debug)]
pub struct Settings {}

impl Settings {
    /// The settings screen.
    pub fn new() -> (r: Settings) {
        Settings {  }
    }
}

} // verus!
