//! The world engine: the visited set, single queries, regions and the
//! search for the cat.

use vstd::prelude::*;

use crate::hash::{hash_of, is_landmark, landmark, lemma_landmark_value, bytes_digest, HASH_MUL, HASH_SEED, LANDMARK_NAME};
use crate::tile::{
    cat_glyph, classify, glitch_glyph, ring_index, pattern_glyph, trace_glyph, Biome, Tile,
    CAT_POSES, GLITCH_EDGES, GLITCH_HEAVY, GLITCH_LIGHT, GLITCH_SYMBOLS, SCATTER_GLYPHS, TRACE_MARKS,
};

verus! {

/// The tile that a query of `(x, y)` yields when the visited set is `v`.
/// Membership in `v` is tested before the cat, so a found cat decays to a trace.
#[verifier::opaque]
pub open spec fn tile_at(v: Set<(i32, i32)>, x: i32, y: i32, crest: bool) -> Tile {
    if v.contains((x, y)) {
        Tile { character: trace_glyph(hash_of(x, y)), biome: Biome::CatTrace }
    } else if is_landmark(x, y) {
        Tile { character: cat_glyph(hash_of(x, y)), biome: Biome::CatPresent }
    } else {
        classify(x, y, hash_of(x, y), crest)
    }
}

/// The visited set after a query of `(x, y)`: the cat's coordinate joins it.
pub open spec fn after_query(v: Set<(i32, i32)>, x: i32, y: i32) -> Set<(i32, i32)> {
    if is_landmark(x, y) {
        v.insert((x, y))
    } else {
        v
    }
}

/// The visited set after querying the first `n` cells of the row that starts
/// at `(x0, y)`, from left to right.
pub open spec fn row_visited(v: Set<(i32, i32)>, x0: i32, y: i32, n: nat) -> Set<(i32, i32)>
    decreases n,
{
    if n == 0 {
        v
    } else {
        let m = (n - 1) as nat;
        after_query(row_visited(v, x0, y, m), x0.wrapping_add(m as i32), y)
    }
}

/// The tiles of the first `n` cells of the row that starts at `(x0, y)`,
/// each queried with the visited set left by the cells before it.
pub open spec fn row_tiles(v: Set<(i32, i32)>, x0: i32, y: i32, crests: Seq<bool>, n: nat) -> Seq<Tile>
    decreases n,
{
    if n == 0 {
        seq![]
    } else {
        let m = (n - 1) as nat;
        row_tiles(v, x0, y, crests, m).push(
            tile_at(row_visited(v, x0, y, m), x0.wrapping_add(m as i32), y, crests[m as int]),
        )
    }
}

/// The visited set after querying the first `m` rows, each `w` wide, of the
/// region whose top left corner is `(x0, y0)`.
pub open spec fn region_visited(v: Set<(i32, i32)>, x0: i32, y0: i32, w: nat, m: nat) -> Set<(i32, i32)>
    decreases m,
{
    if m == 0 {
        v
    } else {
        let k = (m - 1) as nat;
        row_visited(region_visited(v, x0, y0, w, k), x0, y0.wrapping_add(k as i32), w)
    }
}

/// The first `m` rows, each `w` wide, of the region whose top left corner is
/// `(x0, y0)`, queried in row-major order; `crests[i][j]` is the crest flag of
/// the cell in row `i` and column `j`.
pub open spec fn region_tiles(
    v: Set<(i32, i32)>,
    x0: i32,
    y0: i32,
    w: nat,
    crests: Seq<Vec<bool>>,
    m: nat,
) -> Seq<Seq<Tile>>
    decreases m,
{
    if m == 0 {
        seq![]
    } else {
        let k = (m - 1) as nat;
        region_tiles(v, x0, y0, w, crests, k).push(
            row_tiles(region_visited(v, x0, y0, w, k), x0, y0.wrapping_add(k as i32), crests[k as int]@, w),
        )
    }
}

/// A row holds `n` tiles.
proof fn lemma_row_tiles_len(v: Set<(i32, i32)>, x0: i32, y: i32, crests: Seq<bool>, n: nat)
    ensures
        row_tiles(v, x0, y, crests, n).len() == n,
    decreases n,
{
    if n > 0 {
        lemma_row_tiles_len(v, x0, y, crests, (n - 1) as nat);
    }
}

/// The region has `m` rows of `w` tiles each.
proof fn lemma_region_tiles_shape(
    v: Set<(i32, i32)>,
    x0: i32,
    y0: i32,
    w: nat,
    crests: Seq<Vec<bool>>,
    m: nat,
)
    ensures
        region_tiles(v, x0, y0, w, crests, m).len() == m,
        forall|i: int| 0 <= i < m ==> (#[trigger] region_tiles(v, x0, y0, w, crests, m)[i]).len() == w,
    decreases m,
{
    if m > 0 {
        let k = (m - 1) as nat;
        lemma_region_tiles_shape(v, x0, y0, w, crests, k);
        lemma_row_tiles_len(region_visited(v, x0, y0, w, k), x0, y0.wrapping_add(k as i32), crests[k as int]@, w);
    }
}

/// One row of text: the glyphs of the tiles, then a newline.
pub open spec fn row_text(row: Seq<Tile>) -> Seq<char> {
    row.map_values(|t: Tile| t.character).push('\n')
}

/// The text of a block of rows, one line per row.
pub open spec fn region_text(rows: Seq<Seq<Tile>>) -> Seq<char>
    decreases rows.len(),
{
    if rows.len() == 0 {
        seq![]
    } else {
        region_text(rows.drop_last()) + row_text(rows.last())
    }
}

/// The visited set after a sequence of single queries, in order.
pub open spec fn after_queries(v: Set<(i32, i32)>, qs: Seq<(i32, i32)>) -> Set<(i32, i32)>
    decreases qs.len(),
{
    if qs.len() == 0 {
        v
    } else {
        after_query(after_queries(v, qs.drop_last()), qs.last().0, qs.last().1)
    }
}

/// Whether `(x, y)` lies in the square of half-width `radius` around
/// `(xc, yc)`, borders included.
pub open spec fn in_square(x: i32, y: i32, xc: i32, yc: i32, radius: i32) -> bool {
    xc - radius <= x <= xc + radius && yc - radius <= y <= yc + radius
}

/// The cat's coordinates within the square of half-width `radius` around
/// `(xc, yc)`: the cat's one coordinate if it lies there, else none.
pub open spec fn cats_in_square(xc: i32, yc: i32, radius: i32) -> Seq<(i32, i32)> {
    if in_square(landmark().0, landmark().1, xc, yc, radius) {
        seq![landmark()]
    } else {
        seq![]
    }
}

/// Relies on `String::push`, which appends one character.
#[verifier::external_body]
fn push_char(s: &mut String, c: char)
    ensures
        final(s)@ == old(s)@.push(c),
{
    s.push(c)
}

/// `v` brought into the range of `i32`.
fn clamp_to_i32(v: i64) -> (r: i64)
    ensures
        i32::MIN <= r <= i32::MAX,
        i32::MIN <= v <= i32::MAX ==> r == v,
        v < i32::MIN ==> r == i32::MIN,
        v > i32::MAX ==> r == i32::MAX,
{
    if v < i32::MIN as i64 {
        i32::MIN as i64
    } else if v > i32::MAX as i64 {
        i32::MAX as i64
    } else {
        v
    }
}

/// The key under which a coordinate is stored: `x` in the high 32 bits and
/// `y` in the low 32 bits.
pub open spec fn cell_key(x: i32, y: i32) -> u64 {
    ((x as u32 as u64) << 32u64) | (y as u32 as u64)
}

/// Distinct coordinates have distinct keys.
proof fn lemma_cell_key_injective(x1: i32, y1: i32, x2: i32, y2: i32)
    ensures
        cell_key(x1, y1) == cell_key(x2, y2) ==> x1 == x2 && y1 == y2,
{
    assert(((x1 as u32 as u64) << 32u64) | (y1 as u32 as u64) == ((x2 as u32 as u64) << 32u64) | (
    y2 as u32 as u64) ==> x1 == x2 && y1 == y2) by (bit_vector);
}

/// The key of a coordinate.
fn make_key(x: i32, y: i32) -> (r: u64)
    ensures
        r == cell_key(x, y),
{
    ((x as u32 as u64) << 32u64) | (y as u32 as u64)
}

/// The world generator. Its only state is the set of coordinates where the cat
/// has been found.
pub struct World {
    cat_visited: std::collections::HashSet<u64>,
}

/// Two engines whose visited sets agree give the same tile for the same query
/// and are left with visited sets that agree; in particular two fresh engines
/// agree on every coordinate.
pub proof fn lemma_query_deterministic(
    v1: Set<(i32, i32)>,
    v2: Set<(i32, i32)>,
    x: i32,
    y: i32,
    crest: bool,
)
    requires
        v1 == v2,
    ensures
        tile_at(v1, x, y, crest) == tile_at(v2, x, y, crest),
        after_query(v1, x, y) == after_query(v2, x, y),
{
}

/// A fresh engine's tile depends on the coordinate alone: the cat where it
/// lives, the pure classification everywhere else.
pub proof fn lemma_fresh_engine_tile(x: i32, y: i32, crest: bool)
    ensures
        tile_at(Set::empty(), x, y, crest) == (if is_landmark(x, y) {
            Tile { character: cat_glyph(hash_of(x, y)), biome: Biome::CatPresent }
        } else {
            classify(x, y, hash_of(x, y), crest)
        }),
{
    reveal(tile_at);
}

/// At most one coordinate is the cat's.
pub proof fn lemma_landmark_unique(x1: i32, y1: i32, x2: i32, y2: i32)
    requires
        is_landmark(x1, y1),
        is_landmark(x2, y2),
    ensures
        x1 == x2 && y1 == y2,
{
}

/// Scanning any square finds at most one coordinate, and each one found is
/// the cat's and lies in the square.
pub proof fn lemma_scan_finds_at_most_one(xc: i32, yc: i32, radius: i32)
    ensures
        cats_in_square(xc, yc, radius).len() <= 1,
        forall|i: int|
            0 <= i < cats_in_square(xc, yc, radius).len() ==> {
                let c = #[trigger] cats_in_square(xc, yc, radius)[i];
                is_landmark(c.0, c.1) && in_square(c.0, c.1, xc, yc, radius)
            },
{
}

/// Queries never remove a coordinate from the visited set.
pub proof fn lemma_visited_grows(v: Set<(i32, i32)>, qs: Seq<(i32, i32)>)
    ensures
        v.subset_of(after_queries(v, qs)),
    decreases qs.len(),
{
    if qs.len() > 0 {
        lemma_visited_grows(v, qs.drop_last());
    }
}

/// The first query of the cat's coordinate shows the cat; every later query
/// of it shows a trace, whatever other queries came in between.
pub proof fn lemma_cat_becomes_trace(
    v: Set<(i32, i32)>,
    qs: Seq<(i32, i32)>,
    crest1: bool,
    crest2: bool,
)
    requires
        !v.contains(landmark()),
    ensures
        tile_at(v, landmark().0, landmark().1, crest1).biome == Biome::CatPresent,
        tile_at(
            after_queries(after_query(v, landmark().0, landmark().1), qs),
            landmark().0,
            landmark().1,
            crest2,
        ).biome == Biome::CatTrace,
{
    reveal(tile_at);
    let l = landmark();
    let v1 = after_query(v, l.0, l.1);
    assert(v1.contains(l));
    lemma_visited_grows(v1, qs);
    assert(after_queries(v1, qs).contains(l));
}

impl View for World {
    type V = Set<(i32, i32)>;

    /// The coordinates where the cat has been found.
    closed spec fn view(&self) -> Set<(i32, i32)> {
        Set::new(|c: (i32, i32)| self.cat_visited@.contains(cell_key(c.0, c.1)))
    }
}

impl World {
    /// A world in which the cat has not been found yet.
    pub fn new() -> (r: World)
        ensures
            r@ == Set::<(i32, i32)>::empty(),
    {
        let w = World { cat_visited: std::collections::HashSet::new() };
        assert(w@ =~= Set::<(i32, i32)>::empty());
        w
    }

    /// Queries one coordinate. A coordinate where the cat was found shows a
    /// trace; the cat's own coordinate shows the cat and is remembered;
    /// anything else is classified by its hash. `crest` says whether `(x, y)`
    /// lies on the crest band of the wave field.
    pub fn get_tile(&mut self, x: i32, y: i32, crest: bool) -> (r: Tile)
        ensures
            r == tile_at(old(self)@, x, y, crest),
            final(self)@ == after_query(old(self)@, x, y),
    {
        broadcast use vstd::std_specs::hash::group_hash_axioms;

        reveal(tile_at);
        reveal(classify);

        let key = make_key(x, y);
        proof {
            assert forall|c: (i32, i32)| #[trigger] self@.contains(c) <==> self.cat_visited@.contains(
                cell_key(c.0, c.1)) by {}
            lemma_cell_key_injective(x, y, x, y);
        }
        if self.cat_visited.contains(&key) {
            assert(self@.contains((x, y)));
            return Tile { character: self.get_trace_char(x, y), biome: Biome::CatTrace };
        }
        if self.is_cat_location(x, y) {
            let ghost before = self@;
            self.cat_visited.insert(key);
            proof {
                assert forall|c: (i32, i32)| #[trigger] self@.contains(c) <==> before.insert((x, y)).contains(c) by {
                    lemma_cell_key_injective(c.0, c.1, x, y);
                }
                assert(self@ =~= before.insert((x, y)));
            }
            return Tile { character: self.get_cat_char(x, y), biome: Biome::CatPresent };
        }
        let hash = self.coord_hash(x, y);
        let biome_selector = hash % 100;
        if biome_selector < 60 {
            Tile { character: ' ', biome: Biome::Calm }
        } else if biome_selector < 85 {
            Tile { character: self.get_pattern_char(x, y, hash, crest), biome: Biome::Pattern }
        } else {
            Tile { character: self.get_glitch_char(x, y, hash), biome: Biome::Glitch }
        }
    }

    /// The `height` rows, each `width` tiles wide, of the region whose top left
    /// corner is `(x_start, y_start)`, queried in row-major order. Coordinates
    /// past the edge of the 32-bit range wrap. `crests[i][j]` says whether the
    /// cell in row `i` and column `j` lies on the crest band of the wave field.
    pub fn get_region(
        &mut self,
        x_start: i32,
        y_start: i32,
        width: usize,
        height: usize,
        crests: &Vec<Vec<bool>>,
    ) -> (r: Vec<Vec<Tile>>)
        requires
            crests@.len() == height,
            forall|i: int| 0 <= i < height ==> (#[trigger] crests@[i])@.len() == width,
        ensures
            r@.len() == height,
            forall|i: int| 0 <= i < height ==> (#[trigger] r@[i])@.len() == width,
            forall|i: int|
                0 <= i < height ==> (#[trigger] r@[i])@ == region_tiles(
                    old(self)@,
                    x_start,
                    y_start,
                    width as nat,
                    crests@,
                    height as nat,
                )[i],
            final(self)@ == region_visited(old(self)@, x_start, y_start, width as nat, height as nat),
    {
        let ghost v0 = self@;
        let mut region: Vec<Vec<Tile>> = Vec::with_capacity(height);
        let mut y: usize = 0;
        while y < height
            invariant
                y <= height,
                crests@.len() == height,
                forall|i: int| 0 <= i < height ==> (#[trigger] crests@[i])@.len() == width,
                region@.len() == y,
                region_tiles(v0, x_start, y_start, width as nat, crests@, y as nat).len() == y,
                forall|i: int|
                    0 <= i < y ==> (#[trigger] region@[i])@ == region_tiles(
                        v0,
                        x_start,
                        y_start,
                        width as nat,
                        crests@,
                        y as nat,
                    )[i],
                self@ == region_visited(v0, x_start, y_start, width as nat, y as nat),
            decreases height - y,
        {
            let ghost vr = self@;
            let row_y = y_start.wrapping_add(#[verifier::truncate] (y as i32));
            let crest_row = &crests[y];
            let mut row: Vec<Tile> = Vec::with_capacity(width);
            let mut x: usize = 0;
            while x < width
                invariant
                    x <= width,
                    crest_row@.len() == width,
                    row@ == row_tiles(vr, x_start, row_y, crest_row@, x as nat),
                    self@ == row_visited(vr, x_start, row_y, x as nat),
                decreases width - x,
            {
                let tile = self.get_tile(x_start.wrapping_add(#[verifier::truncate] (x as i32)), row_y, crest_row[x]);
                row.push(tile);
                x += 1;
            }
            let ghost before = region@;
            region.push(row);
            proof {
                let k = y as nat;
                let w = width as nat;
                assert(region_tiles(v0, x_start, y_start, w, crests@, k + 1) == region_tiles(
                    v0,
                    x_start,
                    y_start,
                    w,
                    crests@,
                    k,
                ).push(row@));
                assert(region_visited(v0, x_start, y_start, w, k + 1) == self@);
                assert forall|i: int| 0 <= i < y + 1 implies (#[trigger] region@[i])@ == region_tiles(
                    v0,
                    x_start,
                    y_start,
                    w,
                    crests@,
                    k + 1,
                )[i] by {
                    if i < y {
                        assert(region@[i] == before[i]);
                    }
                }
            }
            y += 1;
        }
        proof {
            lemma_region_tiles_shape(v0, x_start, y_start, width as nat, crests@, height as nat);
        }
        region
    }

    /// The region of `get_region` as text: one glyph per tile, each row
    /// followed by a newline.
    pub fn render_region(
        &mut self,
        x_start: i32,
        y_start: i32,
        width: usize,
        height: usize,
        crests: &Vec<Vec<bool>>,
    ) -> (r: String)
        requires
            crests@.len() == height,
            forall|i: int| 0 <= i < height ==> (#[trigger] crests@[i])@.len() == width,
        ensures
            r@ == region_text(
                region_tiles(old(self)@, x_start, y_start, width as nat, crests@, height as nat),
            ),
            final(self)@ == region_visited(old(self)@, x_start, y_start, width as nat, height as nat),
    {
        let ghost rows = region_tiles(self@, x_start, y_start, width as nat, crests@, height as nat);
        proof {
            lemma_region_tiles_shape(self@, x_start, y_start, width as nat, crests@, height as nat);
        }
        let region = self.get_region(x_start, y_start, width, height, crests);
        let mut output = String::new();
        let mut i: usize = 0;
        while i < region.len()
            invariant
                i <= region@.len() == height == rows.len(),
                forall|k: int| 0 <= k < height ==> (#[trigger] region@[k])@ == rows[k],
                output@ == region_text(rows.take(i as int)),
            decreases region@.len() - i,
        {
            let row = &region[i];
            let ghost start = output@;
            let mut j: usize = 0;
            while j < row.len()
                invariant
                    j <= row@.len(),
                    output@ == start + row@.take(j as int).map_values(|t: Tile| t.character),
                decreases row@.len() - j,
            {
                push_char(&mut output, row[j].character);
                assert(row@.take(j + 1).map_values(|t: Tile| t.character) =~= row@.take(
                    j as int,
                ).map_values(|t: Tile| t.character).push(row@[j as int].character));
                j += 1;
            }
            push_char(&mut output, '\n');
            assert(row@.take(row@.len() as int) =~= row@);
            assert(rows.take(i + 1).drop_last() =~= rows.take(i as int));
            assert(output@ =~= region_text(rows.take(i + 1)));
            i += 1;
        }
        assert(rows.take(height as int) =~= rows);
        output
    }

    /// The cat's coordinate, if it lies in the square of half-width `radius`
    /// around `(x_center, y_center)`; found by scanning that square.
    pub fn find_cat_nearby(&self, x_center: i32, y_center: i32, radius: i32) -> (r: Vec<(i32, i32)>)
        ensures
            r@ == cats_in_square(x_center, y_center, radius),
    {
        let mut cat_locations: Vec<(i32, i32)> = Vec::new();
        if radius < 0 {
            return cat_locations;
        }
        let lo_x: i64 = clamp_to_i32(x_center as i64 - radius as i64);
        let hi_x: i64 = clamp_to_i32(x_center as i64 + radius as i64);
        let lo_y: i64 = clamp_to_i32(y_center as i64 - radius as i64);
        let hi_y: i64 = clamp_to_i32(y_center as i64 + radius as i64);
        let ghost l = landmark();
        let ghost in_cols = lo_x <= l.0 <= hi_x;
        let mut y: i64 = lo_y;
        while y <= hi_y
            invariant
                lo_y <= y <= hi_y + 1,
                i32::MIN <= lo_y,
                hi_y <= i32::MAX,
                i32::MIN <= lo_x <= hi_x <= i32::MAX,
                in_cols == (lo_x <= l.0 <= hi_x),
                l == landmark(),
                cat_locations@ == (if in_cols && lo_y <= l.1 < y { seq![l] } else { seq![] }),
            decreases hi_y + 1 - y,
        {
            let mut x: i64 = lo_x;
            while x <= hi_x
                invariant
                    lo_x <= x <= hi_x + 1,
                    l == landmark(),
                    lo_y <= y <= hi_y,
                    i32::MIN <= lo_y,
                    hi_y <= i32::MAX,
                    i32::MIN <= lo_x,
                    hi_x <= i32::MAX,
                    cat_locations@ == (if (in_cols && lo_y <= l.1 < y) || (l.1 == y && lo_x <= l.0 < x) {
                        seq![l]
                    } else {
                        seq![]
                    }),
                decreases hi_x + 1 - x,
            {
                let xi = x as i32;
                let yi = y as i32;
                assert(xi == x && yi == y);
                if self.is_cat_location(xi, yi) {
                    cat_locations.push((xi, yi));
                    assert(cat_locations@ =~= seq![l]);
                }
                x += 1;
            }
            y += 1;
        }
        cat_locations
    }

    /// Whether the cat lives at `(x, y)`.
    pub fn is_cat_location(&self, x: i32, y: i32) -> (r: bool)
        ensures
            r == is_landmark(x, y),
    {
        let (cat_x, cat_y) = Self::ascicat_position();
        x == cat_x && y == cat_y
    }

    /// The one coordinate where the cat lives.
    pub fn ascicat_position() -> (r: (i32, i32))
        ensures
            r == landmark(),
            r == (-102009382i32, 959029586i32),
    {
        let mut h: u64 = HASH_SEED;
        let mut i: usize = 0;
        while i < 7
            invariant
                i <= 7,
                h == bytes_digest(LANDMARK_NAME@.take(i as int)),
            decreases 7 - i,
        {
            assert(LANDMARK_NAME@.take(i + 1).drop_last() =~= LANDMARK_NAME@.take(i as int));
            h = h.wrapping_mul(HASH_MUL);
            h ^= LANDMARK_NAME[i] as u64;
            i += 1;
        }
        assert(LANDMARK_NAME@.take(7) =~= LANDMARK_NAME@);
        proof {
            lemma_landmark_value();
        }
        let x = (((h >> 16u64) & 0xFFFF_FFFFu64) as i32).wrapping_sub(50_000);
        let y = ((h & 0xFFFF_FFFFu64) as i32).wrapping_sub(50_000);
        (x, y)
    }

    /// Deterministic hash of a coordinate.
    pub fn coord_hash(&self, x: i32, y: i32) -> (r: u64)
        ensures
            r == hash_of(x, y),
    {
        let mut h: u64 = HASH_SEED;
        h = h.wrapping_mul(HASH_MUL);
        h ^= x as u64;
        h = h.wrapping_mul(HASH_MUL);
        h ^= y as u64;
        h = h.wrapping_mul(HASH_MUL);
        h
    }

    /// The cat's glyph at a coordinate, one of a few poses picked by its hash.
    fn get_cat_char(&self, x: i32, y: i32) -> (r: char)
        ensures
            r == cat_glyph(hash_of(x, y)),
    {
        let hash = self.coord_hash(x, y);
        CAT_POSES[(hash % 5) as usize]
    }

    /// The glyph of a trace at a coordinate, picked by its hash.
    fn get_trace_char(&self, x: i32, y: i32) -> (r: char)
        ensures
            r == trace_glyph(hash_of(x, y)),
    {
        let hash = self.coord_hash(x, y);
        TRACE_MARKS[(hash % 5) as usize]
    }

    /// The glyph of a pattern tile at `(x, y)` with hash `hash`.
    fn get_pattern_char(&self, x: i32, y: i32, hash: u64, crest: bool) -> (r: char)
        ensures
            r == pattern_glyph(x, y, hash, crest),
    {
        let pattern_type = (hash / 100) % 10;
        match pattern_type {
            0 | 1 => {
                if x.wrapping_add(y) % 2 == 0 { '·' } else { ' ' }
            },
            2 | 3 => {
                if crest { '~' } else { ' ' }
            },
            4 => {
                if x.wrapping_sub(y) % 3 == 0 { '/' } else { ' ' }
            },
            5 => {
                if x.wrapping_mul(7).wrapping_add(y.wrapping_mul(11)) % 13 == 0 { '•' } else { ' ' }
            },
            6 => {
                if x % 5 == 0 || y % 5 == 0 { '+' } else { ' ' }
            },
            7 => {
                let dist = ring_index(x, y);
                if dist % 10 == 0 { 'o' } else { ' ' }
            },
            8 => SCATTER_GLYPHS[(hash % 6) as usize],
            _ => {
                if hash % 20 == 0 { '.' } else { ' ' }
            },
        }
    }

    /// The glyph of a glitch tile with hash `hash`.
    fn get_glitch_char(&self, _x: i32, _y: i32, hash: u64) -> (r: char)
        ensures
            r == glitch_glyph(hash),
    {
        let glitch_intensity = hash % 10;
        if glitch_intensity < 3 {
            GLITCH_LIGHT[(hash % 4) as usize]
        } else if glitch_intensity < 6 {
            GLITCH_SYMBOLS[(hash % 6) as usize]
        } else if glitch_intensity < 8 {
            GLITCH_HEAVY[(hash % 6) as usize]
        } else {
            GLITCH_EDGES[(hash % 6) as usize]
        }
    }
}

impl Default for World {
    fn default() -> (r: World)
        ensures
            r@ == Set::<(i32, i32)>::empty(),
    {
        World::new()
    }
}

} // verus!
