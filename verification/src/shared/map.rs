//! Model of a map exported by the Tiled editor (JSON format), with the
//! queries the game makes on it.

use vstd::prelude::*;

use crate::shared::{floor_div, saturate_i32, saturating_i32, floor_div_i64, TilePos, WorldPos};

verus! {

/// Drawing offset of a tileset's tiles, in pixels.
#[derive(Clone, Copy, Debug, PartialEq, Eq, Structural)]
pub struct TileOffset {
    pub x: i32,
    pub y: i32,
}

/// A named object of an object layer (such as a spawn point). Its geometry is
/// kept in whole pixels, rounded down.
pub struct TiledObject {
    pub id: u32,
    pub name: String,
    pub x: i64,
    pub y: i64,
    pub width: i64,
    pub height: i64,
}

/// A layer of the map: a tile layer carries `data` (one global tile id per
/// cell, row by row, 0 meaning empty), an object layer carries `objects`.
pub struct TiledLayer {
    pub width: Option<u32>,
    pub height: Option<u32>,
    pub name: String,
    pub visible: bool,
    pub data: Option<Vec<u32>>,
    pub objects: Option<Vec<TiledObject>>,
}

/// A tileset referenced by the map; its tiles are numbered from `firstgid`.
pub struct TiledTileset {
    pub firstgid: u32,
    pub source: Option<String>,
    pub image: Option<String>,
    pub tilecount: Option<u32>,
    pub tilewidth: Option<u32>,
    pub tileheight: Option<u32>,
    pub tileoffset: Option<TileOffset>,
}

/// A whole Tiled map: its size in tiles, the size of a tile in pixels,
/// its layers and its tilesets.
pub struct TiledMap {
    pub width: u32,
    pub height: u32,
    pub tilewidth: u32,
    pub tileheight: u32,
    pub layers: Vec<TiledLayer>,
    pub tilesets: Vec<TiledTileset>,
}

/// The first layer of `layers` whose name is `name`.
pub open spec fn first_layer(layers: Seq<TiledLayer>, name: Seq<char>) -> Option<TiledLayer>
    decreases layers.len(),
{
    if layers.len() == 0 {
        None
    } else if layers[0].name@ == name {
        Some(layers[0])
    } else {
        first_layer(layers.drop_first(), name)
    }
}

/// The first object of `objects` whose name is `name`.
pub open spec fn first_object(objects: Seq<TiledObject>, name: Seq<char>) -> Option<TiledObject>
    decreases objects.len(),
{
    if objects.len() == 0 {
        None
    } else if objects[0].name@ == name {
        Some(objects[0])
    } else {
        first_object(objects.drop_first(), name)
    }
}

/// Pixel-to-tile division as a float division, `floor` and saturating cast
/// compute it: a zero divisor yields the saturated sign of the dividend.
pub open spec fn tile_div(a: int, b: int) -> i32 {
    if b == 0 {
        if a > 0 {
            i32::MAX
        } else if a < 0 {
            i32::MIN
        } else {
            0i32
        }
    } else {
        saturate_i32(floor_div(a, b))
    }
}

fn tile_div_exec(a: i64, b: u32) -> (r: i32)
    ensures
        r == tile_div(a as int, b as int),
{
    if b == 0 {
        if a > 0 {
            i32::MAX
        } else if a < 0 {
            i32::MIN
        } else {
            0
        }
    } else {
        saturating_i32(floor_div_i64(a, b as i64))
    }
}

/// Whether `data` has a nonzero tile id at `index`.
pub open spec fn has_tile_at(data: Option<Vec<u32>>, index: int) -> bool {
    match data {
        Some(d) => 0 <= index < d@.len() && d@[index] != 0,
        None => false,
    }
}

/// Whether `data` has an empty cell (id 0) at `index`.
pub open spec fn empty_at(data: Option<Vec<u32>>, index: int) -> bool {
    match data {
        Some(d) => 0 <= index < d@.len() && d@[index] == 0,
        None => false,
    }
}

impl TiledMap {
    /// The layer that `get_layer` finds.
    pub open spec fn spec_get_layer(&self, name: Seq<char>) -> Option<TiledLayer> {
        first_layer(self.layers@, name)
    }

    /// The object that `get_object` finds.
    pub open spec fn spec_get_object(&self, layer_name: Seq<char>, name: Seq<char>) -> Option<TiledObject> {
        match self.spec_get_layer(layer_name) {
            Some(l) => match l.objects {
                Some(objs) => first_object(objs@, name),
                None => None,
            },
            None => None,
        }
    }

    /// Whether the named layer leaves the tile free. The tested row is one
    /// below `tile.y`, which compensates for the rendering offset of tiles.
    /// A missing layer blocks nothing; a cell outside the layer is blocked.
    pub open spec fn spec_is_walkable(&self, layer_name: Seq<char>, tile: TilePos) -> bool {
        match self.spec_get_layer(layer_name) {
            None => true,
            Some(l) => {
                let w = l.width.unwrap() as int;
                let h = l.height.unwrap() as int;
                let x = tile.x as int;
                let y = tile.y as int + 1;
                if x < 0 || y < 0 || x >= w || y >= h {
                    false
                } else {
                    empty_at(l.data, y * w + x)
                }
            },
        }
    }

    /// Whether every named layer that `spec_is_walkable` would consult has a
    /// known size.
    pub open spec fn layer_sized(&self, layer_name: Seq<char>) -> bool {
        match self.spec_get_layer(layer_name) {
            Some(l) => l.width is Some && l.height is Some,
            None => true,
        }
    }

    /// Whether `is_walkable` can look at the tile: the named layer, if any,
    /// has a width, and a height too when the tile's column lies inside it.
    pub open spec fn walk_defined(&self, layer_name: Seq<char>, tile: TilePos) -> bool {
        match self.spec_get_layer(layer_name) {
            None => true,
            Some(l) => l.width is Some && (tile.x < 0 || tile.x >= l.width.unwrap() || l.height is Some),
        }
    }

    /// Whether `is_walkable` can look at every tile of a `w` by `h` grid:
    /// the named layer, if any, has a width, and a height too unless no
    /// column of the grid lies inside it.
    pub open spec fn cells_probe_defined(&self, layer_name: Seq<char>, w: int, h: int) -> bool {
        match self.spec_get_layer(layer_name) {
            None => true,
            Some(l) => l.width is Some && (l.height is Some || l.width.unwrap() == 0 || w == 0 || h == 0),
        }
    }

    /// World position of the top-left corner of a tile.
    pub open spec fn spec_tile_to_world(&self, tile: TilePos) -> WorldPos {
        WorldPos {
            x: (tile.x * self.tilewidth) as i64,
            y: (tile.y * self.tileheight) as i64,
        }
    }

    /// The tile under a world position. Tiled's origin is the top-left
    /// corner, so the row is shifted up by one tile.
    pub open spec fn spec_world_to_tile(&self, world: WorldPos) -> TilePos {
        TilePos {
            x: tile_div(world.x as int, self.tilewidth as int),
            y: tile_div(world.y - self.tileheight, self.tileheight as int),
        }
    }

    /// Index into a layer's data that `get_tile` computes, with the
    /// wrapping 32-bit arithmetic of the computation.
    pub open spec fn tile_index(tile: TilePos, width: u32) -> i32 {
        vstd::wrapping::i32_specs::wrapping_add(
            vstd::wrapping::i32_specs::wrapping_mul(tile.y, width as i32),
            tile.x,
        )
    }

    /// The tile under a world position, if the named layer has a tile there.
    pub open spec fn spec_get_tile(&self, layer_name: Seq<char>, world: WorldPos) -> Option<TilePos> {
        match self.spec_get_layer(layer_name) {
            None => None,
            Some(l) => match l.width {
                None => None,
                Some(w) => {
                    let tile = self.spec_world_to_tile(world);
                    let idx = Self::tile_index(tile, w);
                    if idx >= 0 && has_tile_at(l.data, idx as int) {
                        Some(tile)
                    } else {
                        None
                    }
                },
            },
        }
    }

    /// Finds the first layer with the given name.
    pub fn get_layer(&self, layer_name: &str) -> (layer: Option<&TiledLayer>)
        ensures
            match layer {
                Some(l) => self.spec_get_layer(layer_name@) == Some(*l),
                None => self.spec_get_layer(layer_name@) is None,
            },
    {
        let key = layer_name.to_owned();
        let n = self.layers.len();
        let mut i: usize = 0;
        assert(self.layers@.subrange(0, n as int) =~= self.layers@);
        while i < n
            invariant
                n == self.layers@.len(),
                i <= n,
                key@ == layer_name@,
                first_layer(self.layers@, key@) == first_layer(self.layers@.subrange(i as int, n as int), key@),
            decreases n - i,
        {
            assert(self.layers@.subrange(i as int, n as int).drop_first()
                =~= self.layers@.subrange(i as int + 1, n as int));
            if self.layers[i].name == key {
                return Some(&self.layers[i]);
            }
            i += 1;
        }
        None
    }

    /// Finds the first object with the given name in the first layer with
    /// the given layer name.
    pub fn get_object(&self, layer_name: &str, name: &str) -> (object: Option<&TiledObject>)
        ensures
            match object {
                Some(o) => self.spec_get_object(layer_name@, name@) == Some(*o),
                None => self.spec_get_object(layer_name@, name@) is None,
            },
    {
        let layer = match self.get_layer(layer_name) {
            Some(l) => l,
            None => return None,
        };
        let objects = match &layer.objects {
            Some(objs) => objs,
            None => return None,
        };
        let key = name.to_owned();
        let n = objects.len();
        let mut i: usize = 0;
        assert(objects@.subrange(0, n as int) =~= objects@);
        while i < n
            invariant
                n == objects@.len(),
                self.spec_get_layer(layer_name@) == Some(*layer),
                layer.objects == Some(*objects),
                i <= n,
                key@ == name@,
                first_object(objects@, key@) == first_object(objects@.subrange(i as int, n as int), key@),
            decreases n - i,
        {
            assert(objects@.subrange(i as int, n as int).drop_first()
                =~= objects@.subrange(i as int + 1, n as int));
            if objects[i].name == key {
                proof {
                    assert(first_object(objects@.subrange(i as int, n as int), key@) == Some(objects@[i as int]));
                    assert(self.spec_get_layer(layer_name@) == Some(*layer));
                    assert(layer.objects == Some(*objects));
                }
                return Some(&objects[i]);
            }
            i += 1;
        }
        None
    }

    /// Whether the first layer with the given name, if any, has a known size.
    pub fn layer_has_size(&self, layer_name: &str) -> (sized: bool)
        ensures
            sized == self.layer_sized(layer_name@),
    {
        match self.get_layer(layer_name) {
            Some(l) => l.width.is_some() && l.height.is_some(),
            None => true,
        }
    }

    /// Whether `is_walkable` can look at every tile of a `w` by `h` grid
    /// (see `cells_probe_defined`).
    pub fn cells_probe_is_defined(&self, layer_name: &str, w: u32, h: u32) -> (ok: bool)
        ensures
            ok == self.cells_probe_defined(layer_name@, w as int, h as int),
    {
        match self.get_layer(layer_name) {
            Some(l) => match l.width {
                Some(lw) => l.height.is_some() || lw == 0 || w == 0 || h == 0,
                None => false,
            },
            None => true,
        }
    }

    /// Whether a tile is free in the named layer (see `spec_is_walkable`).
    pub fn is_walkable(&self, layer_name: &str, tile_pos: TilePos) -> (walkable: bool)
        requires
            self.walk_defined(layer_name@, tile_pos),
        ensures
            walkable == self.spec_is_walkable(layer_name@, tile_pos),
    {
        let layer = match self.get_layer(layer_name) {
            Some(l) => l,
            None => return true,
        };
        let w = layer.width.unwrap();
        let x = tile_pos.x as i64;
        let y = tile_pos.y as i64 + 1;
        if x < 0 || x >= w as i64 {
            return false;
        }
        let h = layer.height.unwrap();
        if y < 0 || y >= h as i64 {
            return false;
        }
        let xu = x as u64;
        let yu = y as u64;
        assert(yu * (w as u64) <= (h as u64 - 1) * (w as u64)) by (nonlinear_arith)
            requires yu < h as u64;
        assert((h as u64 - 1) * (w as u64) <= 0xffff_ffffu64 * 0xffff_ffffu64) by (nonlinear_arith)
            requires h <= 0xffff_ffffu32, w <= 0xffff_ffffu32, h >= 1;
        let index = yu * (w as u64) + xu;
        match &layer.data {
            Some(data) => {
                if index < data.len() as u64 {
                    data[index as usize] == 0
                } else {
                    false
                }
            },
            None => false,
        }
    }

    /// World position of the top-left corner of a tile.
    pub fn tile_to_world(&self, tile_pos: TilePos) -> (world: WorldPos)
        ensures
            world == self.spec_tile_to_world(tile_pos),
    {
        proof {
            lemma_tile_times_size_fits(tile_pos.x, self.tilewidth);
            lemma_tile_times_size_fits(tile_pos.y, self.tileheight);
        }
        WorldPos {
            x: tile_pos.x as i64 * self.tilewidth as i64,
            y: tile_pos.y as i64 * self.tileheight as i64,
        }
    }

    /// The tile under a world position (see `spec_world_to_tile`).
    pub fn world_to_tile(&self, world_pos: WorldPos) -> (tile: TilePos)
        ensures
            tile == self.spec_world_to_tile(world_pos),
    {
        let wide: i128 = world_pos.y as i128 - self.tileheight as i128;
        let ty = if wide < i64::MIN as i128 {
            proof {
                lemma_far_below_saturates(wide as int, self.tileheight as int);
            }
            i32::MIN
        } else {
            tile_div_exec(wide as i64, self.tileheight)
        };
        TilePos { x: tile_div_exec(world_pos.x, self.tilewidth), y: ty }
    }

    /// The tile under a world position, if the named layer holds a tile
    /// there (a nonzero id at the cell's index).
    pub fn get_tile(&self, layer_name: &str, world_pos: WorldPos) -> (tile: Option<TilePos>)
        ensures
            tile == self.spec_get_tile(layer_name@, world_pos),
    {
        let layer = match self.get_layer(layer_name) {
            Some(l) => l,
            None => return None,
        };
        let w = match layer.width {
            Some(w) => w,
            None => return None,
        };
        let tile_pos = self.world_to_tile(world_pos);
        let index = tile_pos.y.wrapping_mul(w as i32).wrapping_add(tile_pos.x);
        if index < 0 {
            return None;
        }
        match &layer.data {
            Some(data) => {
                if (index as usize) < data.len() && data[index as usize] != 0 {
                    Some(tile_pos)
                } else {
                    None
                }
            },
            None => None,
        }
    }
}

proof fn lemma_tile_times_size_fits(t: i32, size: u32)
    ensures
        i64::MIN <= t * size <= i64::MAX,
{
    assert(-0x8000_0000 * 0xffff_ffff <= t * size <= 0x7fff_ffff * 0xffff_ffff) by (nonlinear_arith)
        requires -0x8000_0000 <= t <= 0x7fff_ffff, 0 <= size <= 0xffff_ffff;
}

proof fn lemma_far_below_saturates(a: int, b: int)
    requires
        a < i64::MIN as int,
        0 <= b <= u32::MAX as int,
    ensures
        tile_div(a, b) == i32::MIN,
{
    if b > 0 {
        let q = a / b;
        assert(q * b <= a) by (nonlinear_arith) requires b > 0, q == a / b;
        if q >= i32::MIN as int {
            assert(q * b >= (i32::MIN as int) * b) by (nonlinear_arith)
                requires q >= i32::MIN as int, b > 0;
            assert((i32::MIN as int) * b >= (i32::MIN as int) * (u32::MAX as int)) by (nonlinear_arith)
                requires b <= u32::MAX as int, b > 0;
        }
    }
}

/// A tile's top-left corner lies one tile row below the tile that
/// `world_to_tile` reports for it, whenever tile sizes are positive.
pub proof fn lemma_map_tile_world_round_trip(map: &TiledMap, tile: TilePos)
    requires
        tile.y > i32::MIN,
        map.tilewidth > 0,
        map.tileheight > 0,
    ensures
        map.spec_world_to_tile(map.spec_tile_to_world(tile))
            == (TilePos { x: tile.x, y: (tile.y - 1) as i32 }),
{
    let tw = map.tilewidth as int;
    let th = map.tileheight as int;
    lemma_tile_times_size_fits(tile.x, map.tilewidth);
    lemma_tile_times_size_fits(tile.y, map.tileheight);
    let w = map.spec_tile_to_world(tile);
    assert(tile.x * tw == tw * tile.x);
    vstd::arithmetic::div_mod::lemma_div_multiples_vanish(tile.x as int, tw);
    assert((tile.y * th) - th == th * (tile.y - 1)) by (nonlinear_arith);
    vstd::arithmetic::div_mod::lemma_div_multiples_vanish(tile.y - 1, th);
    assert(w.x == tile.x * tw);
    assert(w.y == tile.y * th);
}

} // verus!
