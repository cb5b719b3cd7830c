//! The server's view of the map: the Tiled data and a grid of blocked tiles.

use vstd::prelude::*;

use crate::shared::{TilePos, WorldPos};
use crate::shared::map::{TiledMap, TiledObject};

verus! {

/// Which tiles are blocked, by the map's `colliders` layer or by an entity
/// standing on them. Cells are stored row by row.
pub struct CollisionGrid {
    width: usize,
    height: usize,
    grid: Vec<bool>,
}

/// Whether the map's `colliders` layer blocks the cell in column `x`, row `y`
/// (the cell is probed as `TilePos { x, y }`, with 32-bit coordinates).
pub open spec fn map_blocks(map: &GameMap, x: int, y: int) -> bool {
    !map.tiled.spec_is_walkable("colliders"@, TilePos { x: x as i32, y: y as i32 })
}

/// Whether some collider in `colliders` stands on column `x`, row `y`.
pub open spec fn occupied(colliders: Seq<TilePos>, x: int, y: int) -> bool {
    exists|k: int| 0 <= k < colliders.len() && #[trigger] colliders[k].x == x && colliders[k].y == y
}

proof fn lemma_cell_index(w: int, h: int, x: int, y: int)
    requires
        0 <= x < w,
        0 <= y < h,
    ensures
        0 <= y * w + x < w * h,
        (y * w + x) % w == x,
        (y * w + x) / w == y,
{
    assert(0 <= y * w) by (nonlinear_arith) requires 0 <= y, 0 < w;
    assert(y * w + x < w * h) by (nonlinear_arith) requires 0 <= x < w, 0 <= y < h;
    vstd::arithmetic::div_mod::lemma_fundamental_div_mod_converse(y * w + x, w, y, x);
}

proof fn lemma_index_cell(w: int, h: int, i: int)
    requires
        0 < w,
        0 <= i < w * h,
    ensures
        0 <= i % w < w,
        0 <= i / w < h,
        (i / w) * w + i % w == i,
{
    vstd::arithmetic::div_mod::lemma_fundamental_div_mod(i, w);
    assert(i == w * (i / w) + i % w);
    assert(0 <= i % w < w) by (nonlinear_arith) requires w > 0;
    assert(0 <= i / w) by (nonlinear_arith) requires w > 0, i >= 0;
    if i / w >= h {
        assert(w * (i / w) >= w * h) by (nonlinear_arith) requires i / w >= h, w > 0;
    }
    assert((i / w) * w == w * (i / w)) by (nonlinear_arith);
}

impl CollisionGrid {
    /// The grid holds exactly one cell per tile.
    pub closed spec fn wf(&self) -> bool {
        self.grid@.len() == self.width * self.height
    }

    /// Number of columns.
    pub closed spec fn spec_width(&self) -> int {
        self.width as int
    }

    /// Number of rows.
    pub closed spec fn spec_height(&self) -> int {
        self.height as int
    }

    /// Whether the cell in column `x`, row `y` is blocked.
    pub closed spec fn blocked(&self, x: int, y: int) -> bool {
        self.grid@[y * self.width + x]
    }

    /// Whether a tile can be entered: it lies on the grid and is not blocked.
    pub open spec fn spec_is_walkable(&self, tile: TilePos) -> bool {
        &&& 0 <= tile.x < self.spec_width()
        &&& 0 <= tile.y < self.spec_height()
        &&& !self.blocked(tile.x as int, tile.y as int)
    }

    /// An empty grid with the map's size: every cell is free.
    pub fn new(map: &GameMap) -> (grid: CollisionGrid)
        requires
            (map.tiled.width as int) * (map.tiled.height as int) <= usize::MAX,
        ensures
            grid.wf(),
            grid.spec_width() == map.tiled.width,
            grid.spec_height() == map.tiled.height,
            forall|x: int, y: int|
                0 <= x < grid.spec_width() && 0 <= y < grid.spec_height()
                    ==> !#[trigger] grid.blocked(x, y),
    {
        let width = map.tiled.width as usize;
        let height = map.tiled.height as usize;
        let grid = vec![false; width * height];
        let g = CollisionGrid { width, height, grid };
        assert forall|x: int, y: int|
            0 <= x < g.spec_width() && 0 <= y < g.spec_height() implies !#[trigger] g.blocked(x, y) by {
            lemma_cell_index(width as int, height as int, x, y);
        }
        g
    }

    /// Recomputes the grid: a cell is blocked when the map's `colliders`
    /// layer blocks it or when one of `colliders` stands on it.
    pub fn update(&mut self, map: &GameMap, colliders: &[TilePos])
        requires
            old(self).wf(),
            map.tiled.cells_probe_defined("colliders"@, old(self).spec_width(), old(self).spec_height()),
        ensures
            final(self).wf(),
            final(self).spec_width() == old(self).spec_width(),
            final(self).spec_height() == old(self).spec_height(),
            forall|x: int, y: int|
                0 <= x < final(self).spec_width() && 0 <= y < final(self).spec_height()
                    ==> (#[trigger] final(self).blocked(x, y)
                        == (map_blocks(map, x, y) || occupied(colliders@, x, y))),
    {
        let w = self.width;
        let h = self.height;
        let n = self.grid.len();
        let mut i: usize = 0;
        while i < n
            invariant
                self.width == w,
                self.height == h,
                n == w * h,
                self.grid@.len() == n,
                i <= n,
                map.tiled.cells_probe_defined("colliders"@, w as int, h as int),
                forall|j: int| 0 <= j < i ==> #[trigger] self.grid@[j] == map_blocks(map, j % (w as int), j / (w as int)),
            decreases n - i,
        {
            proof {
                lemma_index_cell(w as int, h as int, i as int);
                assert(w > 0 && h > 0) by (nonlinear_arith) requires i < n, n == w * h;
            }
            let x = i % w;
            let y = i / w;
            let tile_pos = TilePos { x: x as i32, y: y as i32 };
            let blocked = !map.tiled.is_walkable("colliders", tile_pos);
            self.grid.set(i, blocked);
            i += 1;
        }
        let m = colliders.len();
        let mut k: usize = 0;
        while k < m
            invariant
                self.width == w,
                self.height == h,
                n == w * h,
                self.grid@.len() == n,
                m == colliders@.len(),
                k <= m,
                forall|j: int| 0 <= j < n ==> #[trigger] self.grid@[j] == (map_blocks(map, j % (w as int), j / (w as int))
                    || occupied(colliders@.subrange(0, k as int), j % (w as int), j / (w as int))),
            decreases m - k,
        {
            let c = colliders[k];
            let ghost prev = self.grid@;
            if c.x >= 0 && c.y >= 0 && (c.x as usize) < w && (c.y as usize) < h {
                let x = c.x as usize;
                let y = c.y as usize;
                proof {
                    lemma_cell_index(w as int, h as int, x as int, y as int);
                }
                self.grid.set(y * w + x, true);
            }
            assert forall|j: int| 0 <= j < n implies #[trigger] self.grid@[j] == (map_blocks(map, j % (w as int), j / (w as int))
                || occupied(colliders@.subrange(0, k as int + 1), j % (w as int), j / (w as int))) by {
                let cx = j % (w as int);
                let cy = j / (w as int);
                lemma_index_cell(w as int, h as int, j);
                let s0 = colliders@.subrange(0, k as int);
                let s1 = colliders@.subrange(0, k as int + 1);
                assert(s1[k as int] == c);
                if occupied(s0, cx, cy) {
                    let q = choose|q: int| 0 <= q < s0.len() && #[trigger] s0[q].x == cx && s0[q].y == cy;
                    assert(s1[q] == s0[q]);
                }
                if occupied(s1, cx, cy) && !occupied(s0, cx, cy) {
                    let q = choose|q: int| 0 <= q < s1.len() && #[trigger] s1[q].x == cx && s1[q].y == cy;
                    if q < k {
                        assert(s0[q] == s1[q]);
                    }
                    assert(q == k);
                    assert(c.x == cx && c.y == cy);
                    lemma_cell_index(w as int, h as int, cx, cy);
                }
                if c.x >= 0 && c.y >= 0 && (c.x as int) < w && (c.y as int) < h
                    && j == (c.y as int) * (w as int) + (c.x as int) {
                    lemma_cell_index(w as int, h as int, c.x as int, c.y as int);
                    assert(s1[k as int].x == cx && s1[k as int].y == cy);
                }
            }
            k += 1;
        }
        assert(colliders@.subrange(0, m as int) =~= colliders@);
        assert forall|x: int, y: int|
            0 <= x < self.spec_width() && 0 <= y < self.spec_height()
                implies (#[trigger] self.blocked(x, y) == (map_blocks(map, x, y) || occupied(colliders@, x, y))) by {
            lemma_cell_index(w as int, h as int, x, y);
        }
    }

    /// Whether a tile can be entered (see `spec_is_walkable`).
    pub fn is_walkable(&self, tile_pos: TilePos) -> (walkable: bool)
        requires
            self.wf(),
        ensures
            walkable == self.spec_is_walkable(tile_pos),
    {
        if tile_pos.x < 0 || tile_pos.y < 0 {
            return false;
        }
        let x = tile_pos.x as usize;
        let y = tile_pos.y as usize;
        if x >= self.width || y >= self.height {
            false
        } else {
            let n = self.grid.len();
            proof {
                lemma_cell_index(self.width as int, self.height as int, x as int, y as int);
                assert(y * self.width <= y * self.width + x);
            }
            !self.grid[y * self.width + x]
        }
    }
}

/// The map as the server uses it.
pub struct GameMap {
    pub tiled: TiledMap,
}

impl GameMap {
    /// Wraps loaded Tiled data.
    pub fn new(tiled: TiledMap) -> (map: GameMap)
        ensures
            map.tiled == tiled,
    {
        GameMap { tiled }
    }

    /// The tile of the named spawn point, if the `spawns` layer has one.
    pub open spec fn spec_get_spawn(&self, name: Seq<char>) -> Option<TilePos> {
        match self.tiled.spec_get_object("spawns"@, name) {
            Some(o) => Some(self.tiled.spec_world_to_tile(WorldPos { x: o.x, y: o.y })),
            None => None,
        }
    }

    /// The tile of the named spawn point, if the `spawns` layer has one.
    pub fn get_spawn(&self, name: &str) -> (spawn: Option<TilePos>)
        ensures
            spawn == self.spec_get_spawn(name@),
    {
        match self.tiled.get_object("spawns", name) {
            Some(o) => Some(self.tiled.world_to_tile(WorldPos { x: o.x, y: o.y })),
            None => None,
        }
    }

    /// Whether a tile can be entered according to the collision grid.
    pub fn is_walkable(&self, tile_pos: TilePos, grid: &CollisionGrid) -> (walkable: bool)
        requires
            grid.wf(),
        ensures
            walkable == grid.spec_is_walkable(tile_pos),
    {
        grid.is_walkable(tile_pos)
    }
}

} // verus!
