//! How a glyph of a stream is shaded, and the colour themes and presets of
//! the terminal renderer.

use vstd::prelude::*;

verus! {

/// How many trailing glyphs of a stream fade out towards its tail.
pub const FADE_LENGTH: usize = 8;

/// The brightness tiers of the glyphs of a stream, from its head to its tail.
#[derive(Clone, Copy, Debug, PartialEq, Eq, Structural)]
pub enum Tier {
    /// The leading glyph.
    Head,
    /// The glyph right behind the head.
    HeadGlow,
    /// The third glyph.
    Bright,
    /// A body glyph too far from the tail to fade.
    BodyStrong,
    /// A body glyph in the first part of the fade.
    Body,
    Fade1,
    Fade2,
    Fade3,
    /// The faintest glyphs at the very tail.
    Dim,
}

/// The length of the fading tail of a stream of `len` glyphs: `len - 2`
/// (never below 1), capped at `FADE_LENGTH`.
pub open spec fn effective_fade(len: int) -> int {
    let tail = if len >= 2 { len - 2 } else { 0 };
    let tail = if tail >= 1 { tail } else { 1 };
    if tail <= FADE_LENGTH { tail } else { FADE_LENGTH as int }
}

/// The tier of glyph `i` (0 is the head) of a stream of `len` glyphs. Past
/// the three leading glyphs, a glyph at distance `d` from the tail is
/// `BodyStrong` when `d` reaches the fade length `f`; otherwise the ratio
/// `d / f` picks the tier: above 7/10 `Body`, above 9/20 `Fade1`, above 1/4
/// `Fade2`, above 1/10 `Fade3`, else `Dim`.
pub open spec fn tier_of(i: int, len: int) -> Tier {
    if i == 0 {
        Tier::Head
    } else if i == 1 && len > 1 {
        Tier::HeadGlow
    } else if i == 2 && len > 2 {
        Tier::Bright
    } else {
        let f = effective_fade(len);
        let d = len - 1 - i;
        if d >= f {
            Tier::BodyStrong
        } else if 10 * d > 7 * f {
            Tier::Body
        } else if 20 * d > 9 * f {
            Tier::Fade1
        } else if 4 * d > f {
            Tier::Fade2
        } else if 10 * d > f {
            Tier::Fade3
        } else {
            Tier::Dim
        }
    }
}

/// The rank of a tier from the brightest (0, the head) to the faintest.
pub open spec fn tier_rank(t: Tier) -> int {
    match t {
        Tier::Head => 0,
        Tier::HeadGlow => 1,
        Tier::Bright => 2,
        Tier::BodyStrong => 3,
        Tier::Body => 4,
        Tier::Fade1 => 5,
        Tier::Fade2 => 6,
        Tier::Fade3 => 7,
        Tier::Dim => 8,
    }
}

/// Along a stream, from its head to its tail, no glyph is brighter than the
/// one ahead of it.
pub proof fn lemma_tiers_fade_towards_tail(i: int, j: int, len: int)
    requires
        0 <= i < j < len,
    ensures
        tier_rank(tier_of(i, len)) <= tier_rank(tier_of(j, len)),
{
}

/// Only the head glyph is of the head's tier.
pub proof fn lemma_only_head_is_head(i: int, len: int)
    requires
        0 <= i < len,
    ensures
        (tier_of(i, len) == Tier::Head) <==> i == 0,
{
}

/// The tier of glyph `i` of a stream of `len` glyphs.
pub fn fade_tier(i: usize, len: usize) -> (t: Tier)
    requires
        i < len,
    ensures
        t == tier_of(i as int, len as int),
{
    if i == 0 {
        return Tier::Head;
    } else if i == 1 && len > 1 {
        return Tier::HeadGlow;
    } else if i == 2 && len > 2 {
        return Tier::Bright;
    }
    let tail: usize = if len >= 2 { len - 2 } else { 0 };
    let tail: usize = if tail >= 1 { tail } else { 1 };
    let f: usize = if tail <= FADE_LENGTH { tail } else { FADE_LENGTH };
    let d: usize = len - 1 - i;
    if d >= f {
        Tier::BodyStrong
    } else if 10 * d > 7 * f {
        Tier::Body
    } else if 20 * d > 9 * f {
        Tier::Fade1
    } else if 4 * d > f {
        Tier::Fade2
    } else if 10 * d > f {
        Tier::Fade3
    } else {
        Tier::Dim
    }
}

/// The colour a terminal cell is printed in: white, or a shade of the
/// current theme (0 is the brightest).
#[derive(Clone, Copy, Debug, PartialEq, Eq, Structural)]
pub enum Ink {
    White,
    Theme(usize),
}

/// Colour and weight of a terminal cell.
#[derive(Clone, Copy, Debug, PartialEq, Eq, Structural)]
pub struct CellStyle {
    pub ink: Ink,
    pub bold: bool,
}

/// The terminal style of each tier: the head is white, the next glyphs take
/// the brightest theme shades in bold, the fading tail the dimmer ones.
pub open spec fn terminal_style(t: Tier) -> CellStyle {
    match t {
        Tier::Head => CellStyle { ink: Ink::White, bold: true },
        Tier::HeadGlow => CellStyle { ink: Ink::Theme(0), bold: true },
        Tier::Bright => CellStyle { ink: Ink::Theme(1), bold: true },
        Tier::BodyStrong => CellStyle { ink: Ink::Theme(2), bold: true },
        Tier::Body => CellStyle { ink: Ink::Theme(2), bold: false },
        Tier::Fade1 => CellStyle { ink: Ink::Theme(3), bold: false },
        Tier::Fade2 => CellStyle { ink: Ink::Theme(4), bold: false },
        Tier::Fade3 => CellStyle { ink: Ink::Theme(5), bold: false },
        Tier::Dim => CellStyle { ink: Ink::Theme(6), bold: false },
    }
}

/// The style of a sparkling glyph: white and bold, as the head.
pub open spec fn sparkle_style() -> CellStyle {
    CellStyle { ink: Ink::White, bold: true }
}

pub fn style_for_tier(t: Tier) -> (s: CellStyle)
    ensures
        s == terminal_style(t),
{
    match t {
        Tier::Head => CellStyle { ink: Ink::White, bold: true },
        Tier::HeadGlow => CellStyle { ink: Ink::Theme(0), bold: true },
        Tier::Bright => CellStyle { ink: Ink::Theme(1), bold: true },
        Tier::BodyStrong => CellStyle { ink: Ink::Theme(2), bold: true },
        Tier::Body => CellStyle { ink: Ink::Theme(2), bold: false },
        Tier::Fade1 => CellStyle { ink: Ink::Theme(3), bold: false },
        Tier::Fade2 => CellStyle { ink: Ink::Theme(4), bold: false },
        Tier::Fade3 => CellStyle { ink: Ink::Theme(5), bold: false },
        Tier::Dim => CellStyle { ink: Ink::Theme(6), bold: false },
    }
}

/// How many colour themes there are.
pub const THEME_COUNT: usize = 8;

/// How many shades each theme has, from its head glow (0) to its faintest (7).
pub const SHADE_COUNT: usize = 8;

/// The shades of theme `theme`, as red, green and blue levels.
pub open spec fn theme_shades(theme: int) -> Seq<(u8, u8, u8)> {
    if theme == 0 {
        seq![(128u8, 255u8, 128u8), (0u8, 255u8, 0u8), (0u8, 204u8, 0u8), (0u8, 153u8, 25u8), (0u8, 107u8, 20u8), (0u8, 66u8, 15u8), (0u8, 36u8, 10u8), (0u8, 20u8, 5u8)]
    } else if theme == 1 {
        seq![(255u8, 230u8, 128u8), (255u8, 191u8, 0u8), (204u8, 148u8, 0u8), (153u8, 107u8, 0u8), (107u8, 71u8, 0u8), (66u8, 43u8, 0u8), (36u8, 23u8, 0u8), (20u8, 13u8, 0u8)]
    } else if theme == 2 {
        seq![(128u8, 255u8, 255u8), (0u8, 255u8, 255u8), (0u8, 204u8, 204u8), (0u8, 153u8, 166u8), (0u8, 107u8, 115u8), (0u8, 66u8, 71u8), (0u8, 36u8, 38u8), (0u8, 20u8, 22u8)]
    } else if theme == 3 {
        seq![(255u8, 128u8, 128u8), (255u8, 0u8, 0u8), (204u8, 0u8, 0u8), (166u8, 0u8, 20u8), (115u8, 0u8, 15u8), (71u8, 0u8, 10u8), (38u8, 0u8, 5u8), (22u8, 0u8, 3u8)]
    } else if theme == 4 {
        seq![(153u8, 179u8, 255u8), (51u8, 102u8, 255u8), (38u8, 77u8, 204u8), (25u8, 64u8, 153u8), (15u8, 43u8, 107u8), (8u8, 25u8, 66u8), (4u8, 13u8, 36u8), (2u8, 6u8, 20u8)]
    } else if theme == 5 {
        seq![(217u8, 128u8, 255u8), (179u8, 0u8, 255u8), (140u8, 0u8, 204u8), (107u8, 0u8, 153u8), (74u8, 0u8, 107u8), (46u8, 0u8, 66u8), (24u8, 0u8, 36u8), (14u8, 0u8, 20u8)]
    } else if theme == 6 {
        seq![(255u8, 153u8, 204u8), (255u8, 51u8, 153u8), (204u8, 38u8, 120u8), (153u8, 25u8, 92u8), (107u8, 18u8, 64u8), (66u8, 10u8, 38u8), (36u8, 5u8, 20u8), (20u8, 3u8, 11u8)]
    } else {
        seq![(255u8, 255u8, 255u8), (255u8, 255u8, 255u8), (204u8, 204u8, 204u8), (153u8, 153u8, 153u8), (107u8, 107u8, 107u8), (66u8, 66u8, 66u8), (36u8, 36u8, 36u8), (20u8, 20u8, 20u8)]
    }
}

/// The name of theme `theme`.
pub open spec fn theme_name_spec(theme: int) -> Seq<char> {
    if theme == 0 {
        "Green"@
    } else if theme == 1 {
        "Amber"@
    } else if theme == 2 {
        "Cyan"@
    } else if theme == 3 {
        "Red"@
    } else if theme == 4 {
        "Blue"@
    } else if theme == 5 {
        "Purple"@
    } else if theme == 6 {
        "Pink"@
    } else {
        "White"@
    }
}

/// The red, green and blue levels of shade `shade` of theme `theme`.
pub fn theme_rgb(theme: usize, shade: usize) -> (c: (u8, u8, u8))
    requires
        theme < THEME_COUNT,
        shade < SHADE_COUNT,
    ensures
        c == theme_shades(theme as int)[shade as int],
{
    let shades: [(u8, u8, u8); 8] = if theme == 0 {
        [(128u8, 255u8, 128u8), (0u8, 255u8, 0u8), (0u8, 204u8, 0u8), (0u8, 153u8, 25u8), (0u8, 107u8, 20u8), (0u8, 66u8, 15u8), (0u8, 36u8, 10u8), (0u8, 20u8, 5u8)]
    } else if theme == 1 {
        [(255u8, 230u8, 128u8), (255u8, 191u8, 0u8), (204u8, 148u8, 0u8), (153u8, 107u8, 0u8), (107u8, 71u8, 0u8), (66u8, 43u8, 0u8), (36u8, 23u8, 0u8), (20u8, 13u8, 0u8)]
    } else if theme == 2 {
        [(128u8, 255u8, 255u8), (0u8, 255u8, 255u8), (0u8, 204u8, 204u8), (0u8, 153u8, 166u8), (0u8, 107u8, 115u8), (0u8, 66u8, 71u8), (0u8, 36u8, 38u8), (0u8, 20u8, 22u8)]
    } else if theme == 3 {
        [(255u8, 128u8, 128u8), (255u8, 0u8, 0u8), (204u8, 0u8, 0u8), (166u8, 0u8, 20u8), (115u8, 0u8, 15u8), (71u8, 0u8, 10u8), (38u8, 0u8, 5u8), (22u8, 0u8, 3u8)]
    } else if theme == 4 {
        [(153u8, 179u8, 255u8), (51u8, 102u8, 255u8), (38u8, 77u8, 204u8), (25u8, 64u8, 153u8), (15u8, 43u8, 107u8), (8u8, 25u8, 66u8), (4u8, 13u8, 36u8), (2u8, 6u8, 20u8)]
    } else if theme == 5 {
        [(217u8, 128u8, 255u8), (179u8, 0u8, 255u8), (140u8, 0u8, 204u8), (107u8, 0u8, 153u8), (74u8, 0u8, 107u8), (46u8, 0u8, 66u8), (24u8, 0u8, 36u8), (14u8, 0u8, 20u8)]
    } else if theme == 6 {
        [(255u8, 153u8, 204u8), (255u8, 51u8, 153u8), (204u8, 38u8, 120u8), (153u8, 25u8, 92u8), (107u8, 18u8, 64u8), (66u8, 10u8, 38u8), (36u8, 5u8, 20u8), (20u8, 3u8, 11u8)]
    } else {
        [(255u8, 255u8, 255u8), (255u8, 255u8, 255u8), (204u8, 204u8, 204u8), (153u8, 153u8, 153u8), (107u8, 107u8, 107u8), (66u8, 66u8, 66u8), (36u8, 36u8, 36u8), (20u8, 20u8, 20u8)]
    };
    assert(shades@ =~= theme_shades(theme as int));
    shades[shade]
}

/// The name of theme `theme`, as the options menu shows it.
pub fn theme_name(theme: usize) -> (s: &'static str)
    requires
        theme < THEME_COUNT,
    ensures
        s@ == theme_name_spec(theme as int),
{
    if theme == 0 {
        "Green"
    } else if theme == 1 {
        "Amber"
    } else if theme == 2 {
        "Cyan"
    } else if theme == 3 {
        "Red"
    } else if theme == 4 {
        "Blue"
    } else if theme == 5 {
        "Purple"
    } else if theme == 6 {
        "Pink"
    } else {
        "White"
    }
}

} // verus!
