//! Tiles and the pure choice of their glyphs.

use vstd::prelude::*;

verus! {

/// The kind of content a tile holds.
#[derive(Debug, Clone, Copy, PartialEq, Eq, Structural)]
pub enum Biome {
    /// Empty, peaceful space.
    Calm,
    /// One of the regular pattern families.
    Pattern,
    /// Corrupted, glitchy space.
    Glitch,
    /// A coordinate where the cat has been found before.
    CatTrace,
    /// The cat itself, seen for the first time.
    CatPresent,
}

/// What one coordinate shows: a glyph and its classification.
#[derive(Debug, Clone, Copy, PartialEq, Eq, Structural)]
pub struct Tile {
    pub character: char,
    pub biome: Biome,
}

/// Poses of the cat.
pub const CAT_POSES: [char; 5] = ['@', 'C', 'c', 'o', 'O'];

/// Marks left where the cat was found.
pub const TRACE_MARKS: [char; 5] = ['.', '·', '˙', '∙', '•'];

/// Glyph of the cat at a coordinate with hash `h`.
pub open spec fn cat_glyph(h: u64) -> char {
    CAT_POSES@[(h % 5) as int]
}

/// Glyph of a trace at a coordinate with hash `h`.
pub open spec fn trace_glyph(h: u64) -> char {
    TRACE_MARKS@[(h % 5) as int]
}

/// Sparse glyphs of the scatter pattern family.
pub const SCATTER_GLYPHS: [char; 6] = ['*', '·', '˙', ' ', ' ', ' '];

/// Light glitch palette.
pub const GLITCH_LIGHT: [char; 4] = ['▓', '▒', '░', '█'];

/// Medium glitch palette, made of symbols.
pub const GLITCH_SYMBOLS: [char; 6] = ['#', '$', '%', '&', '@', '¤'];

/// Heavy glitch palette.
pub const GLITCH_HEAVY: [char; 6] = ['█', '▓', '▒', '░', '▪', '▫'];

/// Intense glitch palette, made of half blocks.
pub const GLITCH_EDGES: [char; 6] = ['▀', '▄', '▌', '▐', '█', '▓'];

/// The glyph of a glitch tile with hash `h`: the palette is picked by
/// `h % 10`, the entry by `h` modulo the palette's length.
pub open spec fn glitch_glyph(h: u64) -> char {
    let intensity = h % 10;
    if intensity < 3 {
        GLITCH_LIGHT@[(h % 4) as int]
    } else if intensity < 6 {
        GLITCH_SYMBOLS@[(h % 6) as int]
    } else if intensity < 8 {
        GLITCH_HEAVY@[(h % 6) as int]
    } else {
        GLITCH_EDGES@[(h % 6) as int]
    }
}

/// Whether `r` is the integer square root of `n`: the largest `r` with
/// `r * r <= n`.
pub open spec fn is_floor_sqrt(n: int, r: int) -> bool {
    0 <= r && r * r <= n && n < (r + 1) * (r + 1)
}

/// The integer square root of `n`, for `n >= 0`.
pub open spec fn floor_sqrt(n: int) -> int {
    choose|r: int| is_floor_sqrt(n, r)
}

/// The ring index of a coordinate: the integer part of its distance from the
/// origin, where the squared distance is taken in wrapping 32-bit arithmetic
/// and a squared distance that wrapped below zero counts as ring zero.
pub open spec fn ring_of(x: i32, y: i32) -> int {
    let n = x.wrapping_mul(x).wrapping_add(y.wrapping_mul(y));
    if n < 0 {
        0
    } else {
        floor_sqrt(n as int)
    }
}

/// The glyph of a pattern tile. The family is `(h / 100) % 10`; `crest` says
/// whether the coordinate lies on the crest band of the wave field, which only
/// the wave family reads. Sums and products of coordinates wrap at 32 bits;
/// their remainders are only ever compared with zero, where the signed and the
/// Euclidean remainder agree, so negative coordinates are well defined.
pub open spec fn pattern_glyph(x: i32, y: i32, h: u64, crest: bool) -> char {
    let family = (h / 100) % 10;
    if family <= 1 {
        // checkerboard
        if x.wrapping_add(y) % 2 == 0 { '·' } else { ' ' }
    } else if family <= 3 {
        // wave bands
        if crest { '~' } else { ' ' }
    } else if family == 4 {
        // diagonal stripes
        if x.wrapping_sub(y) % 3 == 0 { '/' } else { ' ' }
    } else if family == 5 {
        // sparse dots
        if x.wrapping_mul(7).wrapping_add(y.wrapping_mul(11)) % 13 == 0 { '•' } else { ' ' }
    } else if family == 6 {
        // cross grid
        if x % 5 == 0 || y % 5 == 0 { '+' } else { ' ' }
    } else if family == 7 {
        // concentric rings
        if ring_of(x, y) % 10 == 0 { 'o' } else { ' ' }
    } else if family == 8 {
        SCATTER_GLYPHS@[(h % 6) as int]
    } else {
        // single dots
        if h % 20 == 0 { '.' } else { ' ' }
    }
}

/// Integer square root by bisection.
fn isqrt(n: u32) -> (r: u32)
    ensures
        is_floor_sqrt(n as int, r as int),
{
    let mut lo: u64 = 0;
    let mut hi: u64 = 65536;
    assert(hi * hi > n) by (nonlinear_arith)
        requires hi == 65536, n <= u32::MAX;
    while hi - lo > 1
        invariant
            lo < hi <= 65536,
            lo * lo <= n,
            n < hi * hi,
        decreases hi - lo,
    {
        let mid: u64 = lo + (hi - lo) / 2;
        assert(mid * mid <= 65536 * 65536) by (nonlinear_arith)
            requires mid <= 65536;
        if mid * mid <= n as u64 {
            lo = mid;
        } else {
            hi = mid;
        }
    }
    assert(hi == lo + 1);
    lo as u32
}

/// The floor square root is unique, so the one found names `floor_sqrt`.
proof fn lemma_floor_sqrt_unique(n: int, r: int)
    requires
        is_floor_sqrt(n, r),
    ensures
        floor_sqrt(n) == r,
{
    let s = floor_sqrt(n);
    assert(is_floor_sqrt(n, s));
    if s < r {
        assert((s + 1) * (s + 1) <= r * r) by (nonlinear_arith)
            requires 0 <= s < r;
    } else if r < s {
        assert((r + 1) * (r + 1) <= s * s) by (nonlinear_arith)
            requires 0 <= r < s;
    }
}

/// The ring index of `(x, y)`.
pub(crate) fn ring_index(x: i32, y: i32) -> (r: u32)
    ensures
        r as int == ring_of(x, y),
{
    let n = x.wrapping_mul(x).wrapping_add(y.wrapping_mul(y));
    if n < 0 {
        0
    } else {
        let r = isqrt(n as u32);
        proof {
            lemma_floor_sqrt_unique(n as int, r as int);
        }
        r
    }
}

/// The pure classification of a coordinate that holds neither the cat nor a
/// trace of it: `h % 100` below 60 is calm, below 85 a pattern, else a glitch.
#[verifier::opaque]
pub open spec fn classify(x: i32, y: i32, h: u64, crest: bool) -> Tile {
    let selector = h % 100;
    if selector < 60 {
        Tile { character: ' ', biome: Biome::Calm }
    } else if selector < 85 {
        Tile { character: pattern_glyph(x, y, h, crest), biome: Biome::Pattern }
    } else {
        Tile { character: glitch_glyph(h), biome: Biome::Glitch }
    }
}

} // verus!
