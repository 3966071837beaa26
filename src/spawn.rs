//! The starting layout: the grid of tiles to draw and the pawns placed on
//! random tiles near the origin.
use vstd::prelude::*;

use crate::transform::{in_range, tile_center, tile_limit, TileCoord, WorldPos, TILE_SIZE};

verus! {

/// Tiles along each axis of the starting area, centered on the origin.
pub const TILE_RANGE: i32 = 10;

/// Pawns placed at start.
pub const PAWN_COUNT: usize = 5;

/// Relies on `rand::Rng::random_range` on `rand::rng()`: it returns a
/// value in `lo..hi`. It panics on an empty range, and otherwise only if
/// the operating system's random source fails to seed the generator.
#[verifier::external_body]
fn random_in(lo: i32, hi: i32) -> (r: i32)
    requires
        lo < hi,
    ensures
        lo <= r < hi,
{
    rand::Rng::random_range(&mut rand::rng(), lo..hi)
}

/// A tile index lies in the starting area: from `-TILE_RANGE / 2` up to,
/// not including, `TILE_RANGE / 2`.
pub open spec fn in_start_area(k: int) -> bool {
    -(TILE_RANGE / 2) <= k < TILE_RANGE / 2
}

/// Every tile of the starting area, row by row: entry `k` is the tile
/// `(k / TILE_RANGE - TILE_RANGE / 2, k % TILE_RANGE - TILE_RANGE / 2)`.
pub fn tile_grid() -> (r: Vec<TileCoord>)
    ensures
        r.len() == TILE_RANGE * TILE_RANGE,
        forall|k: int|
            0 <= k < r.len() ==> #[trigger] r[k] == (TileCoord {
                x: (k / TILE_RANGE as int - TILE_RANGE / 2) as i64,
                y: (k % TILE_RANGE as int - TILE_RANGE / 2) as i64,
            }),
{
    let half: i64 = (TILE_RANGE / 2) as i64;
    let mut r: Vec<TileCoord> = Vec::new();
    let mut i: i64 = 0;
    while i < TILE_RANGE as i64
        invariant
            0 <= i <= TILE_RANGE,
            half == TILE_RANGE / 2,
            r.len() == i * TILE_RANGE,
            forall|k: int|
                0 <= k < r.len() ==> #[trigger] r[k] == (TileCoord {
                    x: (k / TILE_RANGE as int - TILE_RANGE / 2) as i64,
                    y: (k % TILE_RANGE as int - TILE_RANGE / 2) as i64,
                }),
        decreases TILE_RANGE - i,
    {
        let mut j: i64 = 0;
        while j < TILE_RANGE as i64
            invariant
                0 <= i < TILE_RANGE,
                0 <= j <= TILE_RANGE,
                half == TILE_RANGE / 2,
                r.len() == i * TILE_RANGE + j,
                forall|k: int|
                    0 <= k < r.len() ==> #[trigger] r[k] == (TileCoord {
                        x: (k / TILE_RANGE as int - TILE_RANGE / 2) as i64,
                        y: (k % TILE_RANGE as int - TILE_RANGE / 2) as i64,
                    }),
            decreases TILE_RANGE - j,
        {
            proof {
                let k = i * TILE_RANGE + j;
                vstd::arithmetic::div_mod::lemma_fundamental_div_mod_converse(
                    k,
                    TILE_RANGE as int,
                    i as int,
                    j as int,
                );
            }
            r.push(TileCoord { x: i - half, y: j - half });
            j = j + 1;
        }
        i = i + 1;
    }
    r
}

/// The centers of the given tiles, in order.
pub fn positions_on_tiles(tiles: &Vec<TileCoord>) -> (r: Vec<WorldPos>)
    requires
        forall|i: int|
            0 <= i < tiles.len() ==> in_range((#[trigger] tiles[i]).x as int, tile_limit())
                && in_range(tiles[i].y as int, tile_limit()),
    ensures
        r.len() == tiles.len(),
        forall|i: int|
            0 <= i < tiles.len() ==> #[trigger] r[i] == (WorldPos {
                x: (tiles[i].x * TILE_SIZE) as i64,
                y: (tiles[i].y * TILE_SIZE) as i64,
            }),
{
    let mut r: Vec<WorldPos> = Vec::new();
    let mut i: usize = 0;
    while i < tiles.len()
        invariant
            i <= tiles.len(),
            r.len() == i,
            forall|k: int|
                0 <= k < tiles.len() ==> in_range((#[trigger] tiles[k]).x as int, tile_limit())
                    && in_range(tiles[k].y as int, tile_limit()),
            forall|k: int|
                0 <= k < i ==> #[trigger] r[k] == (WorldPos {
                    x: (tiles[k].x * TILE_SIZE) as i64,
                    y: (tiles[k].y * TILE_SIZE) as i64,
                }),
        decreases tiles.len() - i,
    {
        r.push(tile_center(tiles[i]));
        i = i + 1;
    }
    r
}

/// World positions for `count` pawns, each at the center of a random tile
/// of the starting area.
pub fn spawn_positions(count: usize) -> (r: Vec<WorldPos>)
    ensures
        r.len() == count,
        forall|i: int|
            0 <= i < count ==> {
                let p = #[trigger] r[i];
                &&& p.x as int % TILE_SIZE as int == 0
                &&& p.y as int % TILE_SIZE as int == 0
                &&& in_start_area(p.x as int / TILE_SIZE as int)
                &&& in_start_area(p.y as int / TILE_SIZE as int)
            },
{
    let half: i32 = TILE_RANGE / 2;
    let mut tiles: Vec<TileCoord> = Vec::new();
    let mut i: usize = 0;
    while i < count
        invariant
            i <= count,
            tiles.len() == i,
            half == TILE_RANGE / 2,
            forall|k: int|
                0 <= k < i ==> in_start_area((#[trigger] tiles[k]).x as int) && in_start_area(
                    tiles[k].y as int,
                ),
        decreases count - i,
    {
        let tx: i32 = random_in(-half, half);
        let ty: i32 = random_in(-half, half);
        tiles.push(TileCoord { x: tx as i64, y: ty as i64 });
        i = i + 1;
    }
    let r = positions_on_tiles(&tiles);
    assert forall|i: int| 0 <= i < count implies {
        let p = #[trigger] r[i];
        &&& p.x as int % TILE_SIZE as int == 0
        &&& p.y as int % TILE_SIZE as int == 0
        &&& in_start_area(p.x as int / TILE_SIZE as int)
        &&& in_start_area(p.y as int / TILE_SIZE as int)
    } by {
        let t = tiles[i];
        assert(in_start_area(t.x as int) && in_start_area(t.y as int));
        vstd::arithmetic::div_mod::lemma_fundamental_div_mod_converse(
            t.x * TILE_SIZE,
            TILE_SIZE as int,
            t.x as int,
            0,
        );
        vstd::arithmetic::div_mod::lemma_fundamental_div_mod_converse(
            t.y * TILE_SIZE,
            TILE_SIZE as int,
            t.y as int,
            0,
        );
    }
    r
}

} // verus!
