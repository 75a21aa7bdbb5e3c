//! The procedural map generator.
//!
//! A map is a horizontal strip of columns.  Every column carries one solid
//! ground tile and a stack of decorative background tiles; an elevated
//! platform layer above the ground repeats the columns with randomized,
//! run-length constrained gaps (see `gaps`).  All positions are integer
//! pixel coordinates; a tile's position is its centre and its collider is a
//! square of half-extent `tile_size`.

use vstd::prelude::*;
use vstd::arithmetic::div_mod::lemma_fundamental_div_mod;
use vstd::arithmetic::div_mod::lemma_fundamental_div_mod_converse_div;
use vstd::arithmetic::div_mod::lemma_fundamental_div_mod_converse_mod;
use vstd::arithmetic::div_mod::lemma_mod_division_less_than_divisor;
use vstd::arithmetic::mul::lemma_mul_inequality;
use vstd::arithmetic::mul::lemma_mul_is_distributive_add_other_way;
use vstd::arithmetic::mul::lemma_mul_is_commutative;
use vstd::arithmetic::mul::lemma_mul_upper_bound;
use crate::gaps::GapRules;
use crate::gaps::elevated_mask;
use crate::gaps::mask_of;
use crate::rng::coin_flips;

verus! {

/// Half of the horizontal extent of the default map, in pixels.
pub const MAP_HALF_WIDTH: u32 = 1000;

/// Half-extent of one square tile, in pixels.
pub const TILE_SIZE: u32 = 10;

/// Height of the centre of every ground tile.
pub const GROUND_Y: i64 = -200;

/// Height of the topmost background tile of each column's stack.
pub const BACKGROUND_TOP_Y: i64 = 190;

/// How many background tiles each column stacks downward from the top.
pub const BACKGROUND_ROWS: u32 = 20;

/// Default bound one below which a gap run forces its own continuation.
pub const MIN_CONSECUTIVE_GAPS: u64 = 2;

/// Default cap on the length of a gap run.
pub const MAX_CONSECUTIVE_GAPS: u64 = 3;

/// Default number of solid tiles required before a gap may open.
pub const MIN_CONSECUTIVE_TILES: u64 = 2;

/// What a placed tile looks like.
#[derive(Clone, Copy, PartialEq, Eq, Structural, Debug)]
pub enum TileKind {
    Ground,
    Background,
}

/// One tile the generator asks the engine to place: centre position, depth
/// layer, visual kind, and whether it carries a collider.
#[derive(Clone, Copy, PartialEq, Eq, Structural, Debug)]
pub struct TileSpec {
    pub x: i64,
    pub y: i64,
    pub z: i64,
    pub kind: TileKind,
    pub collidable: bool,
}

/// The run-length rules the default map is generated with.
pub open spec fn default_rules() -> GapRules {
    GapRules {
        min_consecutive_gaps: MIN_CONSECUTIVE_GAPS,
        max_consecutive_gaps: MAX_CONSECUTIVE_GAPS,
        min_consecutive_tiles: MIN_CONSECUTIVE_TILES,
    }
}

pub fn default_gap_rules() -> (r: GapRules)
    ensures
        r == default_rules(),
{
    GapRules {
        min_consecutive_gaps: MIN_CONSECUTIVE_GAPS,
        max_consecutive_gaps: MAX_CONSECUTIVE_GAPS,
        min_consecutive_tiles: MIN_CONSECUTIVE_TILES,
    }
}

/// Number of columns each layer of the map covers: the half-width divided by
/// the tile size, truncated; a degenerate configuration yields zero columns.
pub open spec fn spec_step_count(half_width: u32, tile_size: u32) -> u32 {
    if tile_size == 0 {
        0u32
    } else {
        half_width / tile_size
    }
}

pub fn step_count(half_width: u32, tile_size: u32) -> (n: u32)
    ensures
        n == spec_step_count(half_width, tile_size),
{
    if tile_size == 0 {
        0
    } else {
        half_width / tile_size
    }
}

/// Horizontal centre of column `i`: columns start at `-half_width` and are
/// spaced two tile widths apart, so neighbouring colliders touch exactly.
pub open spec fn column_x(half_width: u32, tile_size: u32, i: int) -> int {
    -(half_width as int) + 2 * (i * (tile_size as int))
}

/// A column index times the tile size stays strictly inside the half-width.
pub proof fn lemma_step_in_width(half_width: u32, tile_size: u32, i: int)
    requires
        tile_size >= 1,
        0 <= i < spec_step_count(half_width, tile_size),
    ensures
        0 <= i * (tile_size as int),
        i * (tile_size as int) + tile_size <= half_width,
{
    let hw = half_width as int;
    let ts = tile_size as int;
    lemma_fundamental_div_mod(hw, ts);
    lemma_mod_division_less_than_divisor(hw, ts);
    lemma_mul_inequality(i + 1, hw / ts, ts);
    lemma_mul_is_distributive_add_other_way(ts, i, 1);
    lemma_mul_is_commutative(hw / ts, ts);
    lemma_mul_inequality(0, i, ts);
}

/// Adjacent columns are spaced exactly two tile half-extents apart, so the
/// square colliders of neighbouring ground tiles touch and the ground
/// layer covers the strip with no gaps.
pub proof fn lemma_adjacent_columns_touch(half_width: u32, tile_size: u32, i: int)
    ensures
        column_x(half_width, tile_size, i + 1) - column_x(half_width, tile_size, i) == 2 * (
        tile_size as int),
{
    lemma_mul_is_distributive_add_other_way(tile_size as int, i, 1);
}

pub fn column_x_at(half_width: u32, tile_size: u32, i: u32) -> (x: i64)
    requires
        tile_size >= 1,
        i < spec_step_count(half_width, tile_size),
    ensures
        x == column_x(half_width, tile_size, i as int),
{
    proof {
        lemma_step_in_width(half_width, tile_size, i as int);
    }
    let p: i64 = (i as i64) * (tile_size as i64);
    -(half_width as i64) + 2 * p
}

/// The ground tile of column `i`: solid, at the fixed ground height.
pub open spec fn is_ground_tile_at(t: TileSpec, half_width: u32, tile_size: u32, i: int) -> bool {
    &&& t.x == column_x(half_width, tile_size, i)
    &&& t.y == GROUND_Y
    &&& t.z == 1
    &&& t.kind == TileKind::Ground
    &&& t.collidable
}

/// Background tile `j` of column `i`'s stack: decorative, no collider,
/// stacked downward from the top at two tile widths per row.
pub open spec fn is_background_tile_at(
    t: TileSpec,
    half_width: u32,
    tile_size: u32,
    i: int,
    j: int,
) -> bool {
    &&& t.x == column_x(half_width, tile_size, i)
    &&& t.y == BACKGROUND_TOP_Y - 2 * (j * (tile_size as int))
    &&& t.z == -1
    &&& t.kind == TileKind::Background
    &&& !t.collidable
}

/// The elevated platform tile of column `i`: solid, four tile spacings above
/// the ground layer.
pub open spec fn is_elevated_tile_at(t: TileSpec, half_width: u32, tile_size: u32, i: int) -> bool {
    &&& t.x == column_x(half_width, tile_size, i)
    &&& t.y == GROUND_Y + 8 * (tile_size as int)
    &&& t.z == 1
    &&& t.kind == TileKind::Ground
    &&& t.collidable
}

/// The unconditionally solid ground layer: one collidable tile per column,
/// covering the whole strip with no gaps.
pub fn ground_layer(half_width: u32, tile_size: u32) -> (r: Vec<TileSpec>)
    ensures
        r@.len() == spec_step_count(half_width, tile_size),
        forall|i: int|
            0 <= i < r@.len() ==> is_ground_tile_at(#[trigger] r@[i], half_width, tile_size, i),
{
    let n = step_count(half_width, tile_size);
    let mut r: Vec<TileSpec> = Vec::new();
    let mut i: u32 = 0;
    while i < n
        invariant
            n == spec_step_count(half_width, tile_size),
            i <= n,
            r@.len() == i,
            forall|q: int|
                0 <= q < i ==> is_ground_tile_at(#[trigger] r@[q], half_width, tile_size, q),
        decreases n - i,
    {
        let x = column_x_at(half_width, tile_size, i);
        r.push(
            TileSpec { x, y: GROUND_Y, z: 1, kind: TileKind::Ground, collidable: true },
        );
        i = i + 1;
    }
    r
}

/// The decorative background: each column stacks `BACKGROUND_ROWS`
/// non-collidable tiles downward from the top, in column-major order.
pub fn background_layer(half_width: u32, tile_size: u32) -> (r: Vec<TileSpec>)
    ensures
        r@.len() == BACKGROUND_ROWS * spec_step_count(half_width, tile_size),
        forall|k: int|
            0 <= k < r@.len() ==> is_background_tile_at(
                #[trigger] r@[k],
                half_width,
                tile_size,
                k / (BACKGROUND_ROWS as int),
                k % (BACKGROUND_ROWS as int),
            ),
{
    let n = step_count(half_width, tile_size);
    let mut r: Vec<TileSpec> = Vec::new();
    let mut i: u32 = 0;
    while i < n
        invariant
            n == spec_step_count(half_width, tile_size),
            i <= n,
            r@.len() == BACKGROUND_ROWS * i,
            forall|k: int|
                0 <= k < r@.len() ==> is_background_tile_at(
                    #[trigger] r@[k],
                    half_width,
                    tile_size,
                    k / (BACKGROUND_ROWS as int),
                    k % (BACKGROUND_ROWS as int),
                ),
        decreases n - i,
    {
        let x = column_x_at(half_width, tile_size, i);
        let mut j: u32 = 0;
        while j < BACKGROUND_ROWS
            invariant
                n == spec_step_count(half_width, tile_size),
                i < n,
                j <= BACKGROUND_ROWS,
                tile_size >= 1,
                x == column_x(half_width, tile_size, i as int),
                r@.len() == BACKGROUND_ROWS * i + j,
                forall|k: int|
                    0 <= k < r@.len() ==> is_background_tile_at(
                        #[trigger] r@[k],
                        half_width,
                        tile_size,
                        k / (BACKGROUND_ROWS as int),
                        k % (BACKGROUND_ROWS as int),
                    ),
            decreases BACKGROUND_ROWS - j,
        {
            proof {
                lemma_mul_upper_bound(j as int, BACKGROUND_ROWS as int, tile_size as int, u32::MAX as int);
                lemma_fundamental_div_mod_converse_div(
                    (BACKGROUND_ROWS * i + j) as int,
                    BACKGROUND_ROWS as int,
                    i as int,
                    j as int,
                );
                lemma_fundamental_div_mod_converse_mod(
                    (BACKGROUND_ROWS * i + j) as int,
                    BACKGROUND_ROWS as int,
                    i as int,
                    j as int,
                );
            }
            let q: i64 = (j as i64) * (tile_size as i64);
            let y: i64 = BACKGROUND_TOP_Y - 2 * q;
            r.push(
                TileSpec { x, y, z: -1, kind: TileKind::Background, collidable: false },
            );
            j = j + 1;
        }
        i = i + 1;
    }
    r
}

/// Number of solid (non-gap) columns among the first `k` entries of a mask.
pub open spec fn solid_count(mask: Seq<bool>, k: int) -> int
    decreases k,
{
    if k <= 0 {
        0
    } else {
        solid_count(mask, k - 1) + if mask[k - 1] {
            0int
        } else {
            1int
        }
    }
}

pub proof fn lemma_solid_count_bounds(mask: Seq<bool>, k: int)
    ensures
        0 <= solid_count(mask, k) <= if k <= 0 {
            0int
        } else {
            k
        },
    decreases k,
{
    if k > 0 {
        lemma_solid_count_bounds(mask, k - 1);
    }
}

pub proof fn lemma_solid_count_monotone(mask: Seq<bool>, a: int, b: int)
    requires
        a <= b,
    ensures
        solid_count(mask, a) <= solid_count(mask, b),
    decreases b - a,
{
    if a < b {
        lemma_solid_count_monotone(mask, a, b - 1);
    }
}

/// The elevated platform layer: one solid tile per column the mask leaves
/// solid, in column order; the tile of column `i` stands at output position
/// `solid_count(mask, i)`.
pub fn elevated_layer(half_width: u32, tile_size: u32, mask: &Vec<bool>) -> (r: Vec<TileSpec>)
    requires
        mask@.len() == spec_step_count(half_width, tile_size),
    ensures
        r@.len() == solid_count(mask@, mask@.len() as int),
        forall|i: int|
            0 <= i < mask@.len() && !mask@[i] ==> is_elevated_tile_at(
                r@[#[trigger] solid_count(mask@, i)],
                half_width,
                tile_size,
                i,
            ),
{
    let n = mask.len();
    let mut r: Vec<TileSpec> = Vec::new();
    let mut i: usize = 0;
    while i < n
        invariant
            n == mask@.len(),
            mask@.len() == spec_step_count(half_width, tile_size),
            i <= n,
            r@.len() == solid_count(mask@, i as int),
            forall|q: int|
                0 <= q < i && !mask@[q] ==> is_elevated_tile_at(
                    r@[#[trigger] solid_count(mask@, q)],
                    half_width,
                    tile_size,
                    q,
                ),
        decreases n - i,
    {
        proof {
            lemma_solid_count_bounds(mask@, i as int);
        }
        if !mask[i] {
            let x = column_x_at(half_width, tile_size, i as u32);
            let y: i64 = GROUND_Y + 8 * (tile_size as i64);
            let tile = TileSpec { x, y, z: 1, kind: TileKind::Ground, collidable: true };
            let ghost pre = r@;
            r.push(tile);
            proof {
                assert forall|q: int|
                    0 <= q < i + 1 && !mask@[q] implies is_elevated_tile_at(
                    r@[#[trigger] solid_count(mask@, q)],
                    half_width,
                    tile_size,
                    q,
                ) by {
                    lemma_solid_count_bounds(mask@, q);
                    if q < i {
                        lemma_solid_count_monotone(mask@, q + 1, i as int);
                        assert(r@[solid_count(mask@, q)] == pre[solid_count(mask@, q)]);
                    } else {
                        assert(r@[solid_count(mask@, q)] == tile);
                    }
                }
            }
        }
        i = i + 1;
    }
    r
}

/// The full layout of one generated map over a given sequence of coin
/// flips: the ground layer first, then the background stacks, then the
/// elevated platform layer with its gap mask derived from the flips under
/// the default run-length rules.
pub open spec fn map_shape(r: Seq<TileSpec>, half_width: u32, tile_size: u32, coins: Seq<bool>) -> bool {
    let n = spec_step_count(half_width, tile_size) as int;
    let rows = BACKGROUND_ROWS as int;
    let mask = mask_of(coins, default_rules());
    &&& coins.len() == n
    &&& r.len() == (1 + rows) * n + solid_count(mask, n)
    &&& forall|i: int| 0 <= i < n ==> is_ground_tile_at(#[trigger] r[i], half_width, tile_size, i)
    &&& forall|k: int|
        n <= k < (1 + rows) * n ==> is_background_tile_at(
            #[trigger] r[k],
            half_width,
            tile_size,
            (k - n) / rows,
            (k - n) % rows,
        )
    &&& forall|i: int|
        0 <= i < n && !mask[i] ==> is_elevated_tile_at(
            r[(1 + rows) * n + #[trigger] solid_count(mask, i)],
            half_width,
            tile_size,
            i,
        )
}

/// Builds the map for a given sequence of coin flips: a pure function of
/// its arguments, so identical flips give the identical tile sequence.
pub fn build_map(half_width: u32, tile_size: u32, coins: &Vec<bool>) -> (r: Vec<TileSpec>)
    requires
        coins@.len() == spec_step_count(half_width, tile_size),
    ensures
        map_shape(r@, half_width, tile_size, coins@),
{
    let ghost n = spec_step_count(half_width, tile_size) as int;
    let ghost rows = BACKGROUND_ROWS as int;
    let mut r = ground_layer(half_width, tile_size);
    let mut bg = background_layer(half_width, tile_size);
    let ghost ground_seq = r@;
    let ghost bg_seq = bg@;
    r.append(&mut bg);
    let mask = elevated_mask(coins, default_gap_rules());
    let mut elev = elevated_layer(half_width, tile_size, &mask);
    let ghost elev_seq = elev@;
    let ghost mid_seq = r@;
    r.append(&mut elev);
    proof {
        let mask_spec = mask_of(coins@, default_rules());
        assert(mask@ == mask_spec);
        lemma_solid_count_bounds(mask_spec, n);
        assert forall|i: int| 0 <= i < n implies is_ground_tile_at(
            #[trigger] r@[i],
            half_width,
            tile_size,
            i,
        ) by {
            assert(r@[i] == ground_seq[i]);
        }
        assert forall|k: int| n <= k < (1 + rows) * n implies is_background_tile_at(
            #[trigger] r@[k],
            half_width,
            tile_size,
            (k - n) / rows,
            (k - n) % rows,
        ) by {
            assert(r@[k] == bg_seq[k - n]);
        }
        assert forall|i: int| 0 <= i < n && !mask_spec[i] implies is_elevated_tile_at(
            r@[(1 + rows) * n + #[trigger] solid_count(mask_spec, i)],
            half_width,
            tile_size,
            i,
        ) by {
            lemma_solid_count_bounds(mask_spec, i);
            lemma_solid_count_monotone(mask_spec, i + 1, n);
            assert(r@[(1 + rows) * n + solid_count(mask_spec, i)]
                == elev_seq[solid_count(mask_spec, i)]);
        }
    }
    r
}

/// Generates one map from a seed: `step_count` coin flips are drawn from a
/// generator seeded with `seed` and the map is built from them.  Whatever
/// the flips came out as, the result has the full ground and background
/// layers and an elevated layer obeying the run-length rules.
pub fn generate_map(half_width: u32, tile_size: u32, seed: u64) -> (r: Vec<TileSpec>)
    ensures
        exists|coins: Seq<bool>| #[trigger] map_shape(r@, half_width, tile_size, coins),
{
    let n = step_count(half_width, tile_size);
    let coins = coin_flips(seed, n);
    let r = build_map(half_width, tile_size, &coins);
    proof {
        assert(map_shape(r@, half_width, tile_size, coins@));
    }
    r
}

} // verus!
