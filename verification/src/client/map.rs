//! Where the client draws each tile of a Tiled map, and from which part of
//! which tileset image.

use vstd::prelude::*;
use std::collections::HashMap;

use crate::shared::map::{TiledLayer, TiledMap, TiledTileset};

verus! {

broadcast use vstd::std_specs::hash::group_hash_axioms;

/// A loaded tileset image: its size in pixels and the texture handle.
#[derive(Clone, Copy, Debug)]
pub struct Tileset {
    pub dimensions: (u32, u32),
    pub texture: usize,
}

/// One tile to draw: the texture, the source rectangle in the tileset image
/// (with the image size, to turn it into texture coordinates), and the
/// world position of the drawn rectangle.
#[derive(Clone, Copy, Debug, PartialEq, Eq, Structural)]
pub struct TileQuad {
    pub texture: usize,
    pub src_x: u32,
    pub src_y: u32,
    pub src_w: u32,
    pub src_h: u32,
    pub img_w: u32,
    pub img_h: u32,
    pub draw_x: i64,
    pub draw_y: i64,
}

/// The client's map: the Tiled data and the tilesets loaded so far, by
/// their first global tile id.
pub struct GameMap {
    pub tiled: TiledMap,
    pub sets: HashMap<u32, Tileset>,
}

/// Index of the last tileset, in the map's order, whose ids start at or
/// below `id`.
pub open spec fn last_tileset(sets: Seq<TiledTileset>, id: u32) -> Option<int>
    decreases sets.len(),
{
    if sets.len() == 0 {
        None
    } else if sets.last().firstgid <= id {
        Some(sets.len() - 1)
    } else {
        last_tileset(sets.drop_last(), id)
    }
}

proof fn lemma_last_tileset_bounds(sets: Seq<TiledTileset>, id: u32)
    ensures
        last_tileset(sets, id) matches Some(k) ==> 0 <= k < sets.len() && sets[k].firstgid <= id,
    decreases sets.len(),
{
    if sets.len() > 0 && sets.last().firstgid > id {
        lemma_last_tileset_bounds(sets.drop_last(), id);
    }
}

/// Whether a value fits in a `u32`.
pub open spec fn fits_u32(v: int) -> bool {
    0 <= v <= u32::MAX
}

/// A quad as a sequence of at most one element.
pub open spec fn opt_seq(q: Option<TileQuad>) -> Seq<TileQuad> {
    match q {
        Some(v) => seq![v],
        None => seq![],
    }
}

impl GameMap {
    /// The loaded tilesets, by first global tile id.
    pub open spec fn spec_sets(&self) -> Map<u32, Tileset> {
        self.sets@
    }

    /// The global tile id in column `x`, row `y` of a layer of width `w`.
    pub open spec fn tile_id(layer: TiledLayer, x: u32, y: u32) -> u32 {
        layer.data.unwrap()@[y * layer.width.unwrap() + x]
    }

    /// The quad for tile `tile_id` of tileset `ts`, drawn in column `x`, row `y`.
    pub open spec fn spec_quad(&self, ts: TiledTileset, tile_id: u32, x: u32, y: u32) -> TileQuad {
        let set = self.spec_sets()[ts.firstgid];
        let tw = ts.tilewidth.unwrap() as int;
        let th = ts.tileheight.unwrap() as int;
        let tiles_per_row = (set.dimensions.0 / ts.tilewidth.unwrap()) as int;
        let local = tile_id - ts.firstgid;
        let (off_x, off_y) = match ts.tileoffset {
            Some(o) => (o.x as int, o.y as int),
            None => (0, 0),
        };
        TileQuad {
            texture: set.texture,
            src_x: ((local % tiles_per_row) * tw) as u32,
            src_y: ((local / tiles_per_row) * th) as u32,
            src_w: ts.tilewidth.unwrap(),
            src_h: ts.tileheight.unwrap(),
            img_w: set.dimensions.0,
            img_h: set.dimensions.1,
            draw_x: (x * self.tiled.tilewidth + off_x) as i64,
            draw_y: (y * self.tiled.tileheight - th + self.tiled.tileheight + off_y) as i64,
        }
    }

    /// What is drawn in column `x`, row `y` of a tile layer: nothing for a
    /// layer without data, an empty cell (id 0) or an id below every
    /// tileset; otherwise the tile of the last tileset whose ids start at or
    /// below the cell's id.
    pub open spec fn spec_cell_quad(&self, layer: TiledLayer, x: u32, y: u32) -> Option<TileQuad> {
        match layer.data {
            None => None,
            Some(_) => {
                let id = Self::tile_id(layer, x, y);
                if id == 0 {
                    None
                } else {
                    match last_tileset(self.tiled.tilesets@, id) {
                        None => None,
                        Some(k) => Some(self.spec_quad(self.tiled.tilesets@[k], id, x, y)),
                    }
                }
            },
        }
    }

    /// Whether the tile quad of a tileset needs only defined arithmetic: the
    /// tileset is loaded and has a tile size, a row of its image holds at
    /// least one tile, and every coordinate fits in 32 bits.
    pub open spec fn quad_defined(&self, ts: TiledTileset, tile_id: u32, x: u32, y: u32) -> bool {
        &&& self.spec_sets().contains_key(ts.firstgid)
        &&& ts.tilewidth matches Some(tw) && tw > 0
        &&& ts.tileheight is Some
        &&& {
            let set = self.spec_sets()[ts.firstgid];
            let tw = ts.tilewidth.unwrap() as int;
            let th = ts.tileheight.unwrap() as int;
            let tiles_per_row = (set.dimensions.0 / ts.tilewidth.unwrap()) as int;
            let local = tile_id - ts.firstgid;
            &&& tiles_per_row > 0
            &&& fits_u32((local % tiles_per_row) * tw + tw)
            &&& fits_u32((local / tiles_per_row) * th + th)
            &&& fits_u32(x * self.tiled.tilewidth)
            &&& fits_u32(y * self.tiled.tileheight)
        }
    }

    /// Whether drawing column `x`, row `y` of a layer stays within defined
    /// behaviour: the layer has a size, the cell lies in it, its index fits
    /// in 32 bits and in the data, and a drawn tile's quad is defined.
    pub open spec fn cell_defined(&self, layer: TiledLayer, x: u32, y: u32) -> bool {
        &&& layer.width matches Some(w) && x < w
        &&& layer.height matches Some(h) && y < h
        &&& layer.data is Some ==> fits_u32(y * layer.width.unwrap() + x)
        &&& layer.data matches Some(d) ==> y * layer.width.unwrap() + x < d@.len()
        &&& layer.data is Some && Self::tile_id(layer, x, y) != 0 ==> (
            last_tileset(self.tiled.tilesets@, Self::tile_id(layer, x, y)) matches Some(k)
                ==> self.quad_defined(self.tiled.tilesets@[k], Self::tile_id(layer, x, y), x, y))
    }

    /// A map with no tileset loaded yet.
    pub fn new(tiled: TiledMap) -> (map: GameMap)
        ensures
            map.tiled == tiled,
            map.spec_sets() == Map::<u32, Tileset>::empty(),
    {
        GameMap { tiled, sets: HashMap::new() }
    }

    fn find_tileset(&self, id: u32) -> (r: Option<usize>)
        ensures
            r matches Some(k) ==> last_tileset(self.tiled.tilesets@, id) == Some(k as int),
            r is None ==> last_tileset(self.tiled.tilesets@, id) is None,
    {
        let sets = &self.tiled.tilesets;
        let n = sets.len();
        let mut best: Option<usize> = None;
        let mut i: usize = 0;
        assert(sets@.subrange(0, 0) =~= Seq::<TiledTileset>::empty());
        while i < n
            invariant
                n == sets@.len(),
                i <= n,
                best matches Some(k) ==> last_tileset(sets@.subrange(0, i as int), id) == Some(k as int),
                best is None ==> last_tileset(sets@.subrange(0, i as int), id) is None,
            decreases n - i,
        {
            assert(sets@.subrange(0, i as int + 1).drop_last() =~= sets@.subrange(0, i as int));
            if sets[i].firstgid <= id {
                best = Some(i);
            }
            i += 1;
        }
        assert(sets@.subrange(0, n as int) =~= sets@);
        best
    }

    /// Whether drawing column `x`, row `y` of the layer stays within defined
    /// behaviour (see `cell_defined`).
    pub fn cell_is_defined(&self, layer: &TiledLayer, x: u32, y: u32) -> (ok: bool)
        ensures
            ok == self.cell_defined(*layer, x, y),
    {
        let w = match layer.width {
            Some(w) => w,
            None => return false,
        };
        let h = match layer.height {
            Some(h) => h,
            None => return false,
        };
        if x >= w || y >= h {
            return false;
        }
        proof {
            assert((y as u64) * (w as u64) <= 0xffff_ffffu64 * 0xffff_ffffu64) by (nonlinear_arith)
                requires y <= 0xffff_ffff, w <= 0xffff_ffff;
        }
        let index = y as u64 * w as u64 + x as u64;
        let data = match &layer.data {
            Some(d) => d,
            None => return true,
        };
        if index > u32::MAX as u64 {
            return false;
        }
        if index >= data.len() as u64 {
            return false;
        }
        let id = data[index as usize];
        if id == 0 {
            return true;
        }
        match self.find_tileset(id) {
            None => true,
            Some(k) => {
                proof {
                    lemma_last_tileset_bounds(self.tiled.tilesets@, id);
                }
                let ts = &self.tiled.tilesets[k];
                self.quad_is_defined(ts, id, x, y)
            },
        }
    }

    fn quad_is_defined(&self, ts: &TiledTileset, id: u32, x: u32, y: u32) -> (ok: bool)
        requires
            ts.firstgid <= id,
        ensures
            ok == self.quad_defined(*ts, id, x, y),
    {
        let set = match self.sets.get(&ts.firstgid) {
            Some(s) => *s,
            None => return false,
        };
        let tw = match ts.tilewidth {
            Some(tw) => tw,
            None => return false,
        };
        if tw == 0 {
            return false;
        }
        let th = match ts.tileheight {
            Some(th) => th,
            None => return false,
        };
        let tiles_per_row = set.dimensions.0 / tw;
        if tiles_per_row == 0 {
            return false;
        }
        let local = id - ts.firstgid;
        let col = (local % tiles_per_row) as u64;
        let row = (local / tiles_per_row) as u64;
        proof {
            assert(col * (tw as u64) <= 0xffff_ffffu64 * 0xffff_ffffu64) by (nonlinear_arith)
                requires col <= 0xffff_ffff, tw <= 0xffff_ffff;
            assert(row * (th as u64) <= 0xffff_ffffu64 * 0xffff_ffffu64) by (nonlinear_arith)
                requires row <= 0xffff_ffff, th <= 0xffff_ffff;
            assert((x as u64) * (self.tiled.tilewidth as u64) <= 0xffff_ffffu64 * 0xffff_ffffu64) by (nonlinear_arith)
                requires x <= 0xffff_ffff, self.tiled.tilewidth <= 0xffff_ffff;
            assert((y as u64) * (self.tiled.tileheight as u64) <= 0xffff_ffffu64 * 0xffff_ffffu64) by (nonlinear_arith)
                requires y <= 0xffff_ffff, self.tiled.tileheight <= 0xffff_ffff;
        }
        col * tw as u64 + tw as u64 <= u32::MAX as u64
            && row * th as u64 + th as u64 <= u32::MAX as u64
            && x as u64 * self.tiled.tilewidth as u64 <= u32::MAX as u64
            && y as u64 * self.tiled.tileheight as u64 <= u32::MAX as u64
    }

    /// What to draw in column `x`, row `y` of the layer (see `spec_cell_quad`).
    pub fn tile_quad(&self, layer: &TiledLayer, x: u32, y: u32) -> (quad: Option<TileQuad>)
        requires
            self.cell_defined(*layer, x, y),
        ensures
            quad == self.spec_cell_quad(*layer, x, y),
    {
        let layer_w = layer.width.unwrap();
        let data = match &layer.data {
            Some(d) => d,
            None => return None,
        };
        let tile_id = data[(y * layer_w + x) as usize];
        if tile_id == 0 {
            return None;
        }
        let k = match self.find_tileset(tile_id) {
            Some(k) => k,
            None => return None,
        };
        proof {
            lemma_last_tileset_bounds(self.tiled.tilesets@, tile_id);
        }
        let tileset = &self.tiled.tilesets[k];
        let set = *self.sets.get(&tileset.firstgid).unwrap();
        let tileset_tile_w = tileset.tilewidth.unwrap();
        let tileset_tile_h = tileset.tileheight.unwrap();
        let tiles_per_row = set.dimensions.0 / tileset_tile_w;
        let local_tile_id = tile_id - tileset.firstgid;
        let tile_x = local_tile_id % tiles_per_row * tileset_tile_w;
        let tile_y = local_tile_id / tiles_per_row * tileset_tile_h;
        let (offset_x, offset_y): (i64, i64) = match tileset.tileoffset {
            Some(o) => (o.x as i64, o.y as i64),
            None => (0, 0),
        };
        let draw_x = (x * self.tiled.tilewidth) as i64 + offset_x;
        let draw_y = (y * self.tiled.tileheight) as i64 - tileset_tile_h as i64
            + self.tiled.tileheight as i64 + offset_y;
        Some(TileQuad {
            texture: set.texture,
            src_x: tile_x,
            src_y: tile_y,
            src_w: tileset_tile_w,
            src_h: tileset_tile_h,
            img_w: set.dimensions.0,
            img_h: set.dimensions.1,
            draw_x,
            draw_y,
        })
    }
}


impl GameMap {
    /// The quads of the first `n` cells of row `y`, left to right.
    pub open spec fn spec_row_quads(&self, layer: TiledLayer, y: u32, n: nat) -> Seq<TileQuad>
        decreases n,
    {
        if n == 0 {
            seq![]
        } else {
            self.spec_row_quads(layer, y, (n - 1) as nat) + opt_seq(self.spec_cell_quad(layer, (n - 1) as u32, y))
        }
    }

    /// The quads of the first `m` rows of a layer, row after row.
    pub open spec fn spec_rows_quads(&self, layer: TiledLayer, m: nat) -> Seq<TileQuad>
        decreases m,
    {
        if m == 0 {
            seq![]
        } else {
            self.spec_rows_quads(layer, (m - 1) as nat)
                + self.spec_row_quads(layer, (m - 1) as u32, layer.width.unwrap() as nat)
        }
    }

    /// The quads that drawing a layer draws: one per cell holding a tile of
    /// some tileset, in row-major order.
    pub open spec fn spec_layer_quads(&self, layer: TiledLayer) -> Seq<TileQuad> {
        self.spec_rows_quads(layer, layer.height.unwrap() as nat)
    }

    /// Whether a whole layer can be drawn: it has a size and every cell is
    /// defined (see `cell_defined`).
    pub open spec fn layer_drawable(&self, layer: TiledLayer) -> bool {
        &&& layer.width is Some
        &&& layer.height is Some
        &&& forall|x: u32, y: u32| x < layer.width.unwrap() && y < layer.height.unwrap()
            ==> #[trigger] self.cell_defined(layer, x, y)
    }

    /// Whether a whole layer can be drawn (see `layer_drawable`).
    pub fn layer_is_drawable(&self, layer: &TiledLayer) -> (ok: bool)
        ensures
            ok == self.layer_drawable(*layer),
    {
        let w = match layer.width {
            Some(w) => w,
            None => return false,
        };
        let h = match layer.height {
            Some(h) => h,
            None => return false,
        };
        let mut y: u32 = 0;
        while y < h
            invariant
                layer.width == Some(w),
                layer.height == Some(h),
                y <= h,
                forall|cx: u32, cy: u32| cx < w && cy < y ==> #[trigger] self.cell_defined(*layer, cx, cy),
            decreases h - y,
        {
            let mut x: u32 = 0;
            while x < w
                invariant
                    layer.width == Some(w),
                    layer.height == Some(h),
                    y < h,
                    x <= w,
                    forall|cx: u32, cy: u32| cx < w && cy < y ==> #[trigger] self.cell_defined(*layer, cx, cy),
                    forall|cx: u32| cx < x ==> #[trigger] self.cell_defined(*layer, cx, y),
                decreases w - x,
            {
                if !self.cell_is_defined(layer, x, y) {
                    return false;
                }
                x += 1;
            }
            y += 1;
        }
        true
    }

    /// The quads of every cell of a layer that holds a tile, row by row and
    /// left to right within a row.
    pub fn layer_quads(&self, layer: &TiledLayer) -> (quads: Vec<TileQuad>)
        requires
            self.layer_drawable(*layer),
        ensures
            quads@ == self.spec_layer_quads(*layer),
    {
        let w = layer.width.unwrap();
        let h = layer.height.unwrap();
        let mut quads: Vec<TileQuad> = Vec::new();
        let mut y: u32 = 0;
        while y < h
            invariant
                self.layer_drawable(*layer),
                layer.width == Some(w),
                layer.height == Some(h),
                y <= h,
                quads@ == self.spec_rows_quads(*layer, y as nat),
            decreases h - y,
        {
            let ghost before = quads@;
            let mut x: u32 = 0;
            while x < w
                invariant
                    self.layer_drawable(*layer),
                    layer.width == Some(w),
                    layer.height == Some(h),
                    y < h,
                    x <= w,
                    quads@ == before + self.spec_row_quads(*layer, y, x as nat),
                decreases w - x,
            {
                let ghost row = self.spec_row_quads(*layer, y, x as nat);
                assert(self.cell_defined(*layer, x, y));
                let q = self.tile_quad(layer, x, y);
                match q {
                    Some(v) => {
                        quads.push(v);
                    },
                    None => {},
                }
                proof {
                    assert(self.spec_row_quads(*layer, y, (x + 1) as nat) == row + opt_seq(q));
                    assert(quads@ =~= before + (row + opt_seq(q)));
                }
                x += 1;
            }
            proof {
                assert(self.spec_rows_quads(*layer, (y + 1) as nat)
                    == self.spec_rows_quads(*layer, y as nat) + self.spec_row_quads(*layer, y, w as nat));
            }
            y += 1;
        }
        quads
    }
}

/// The width and height in pixels of the image that `bytes` encode, or
/// `None` when `image` cannot decode them.
pub uninterp spec fn decoded_size(bytes: Seq<u8>) -> Option<(u32, u32)>;

/// Wraps `image::load_from_memory`: decodes `bytes`, in the format their
/// content shows, and gives the decoded image's width and height, or `None`
/// when decoding fails. Which bytes decode, and to what size, is left to the
/// name `decoded_size`; the contract claims only that the result depends on
/// the bytes alone.
#[verifier::external_body]
fn image_size(bytes: &[u8]) -> (size: Option<(u32, u32)>)
    ensures
        size == decoded_size(bytes@),
{
    match image::load_from_memory(bytes) {
        Ok(img) => Some((img.width(), img.height())),
        Err(_) => None,
    }
}

impl GameMap {
    /// Records the tileset numbered from `firstgid`: its image is
    /// `dimensions` pixels and is drawn from `texture`.
    pub fn record_tileset(&mut self, firstgid: u32, dimensions: (u32, u32), texture: usize)
        ensures
            final(self).spec_sets() == old(self).spec_sets().insert(firstgid, Tileset { dimensions, texture }),
            final(self).tiled == old(self).tiled,
    {
        self.sets.insert(firstgid, Tileset { dimensions, texture });
    }

    /// Loads the tileset numbered from `firstgid` from its image file's
    /// `bytes`: when they decode, the tileset is recorded with the decoded
    /// image's size and `texture`, and the result is true; otherwise
    /// nothing changes.
    pub fn load_tileset(&mut self, firstgid: u32, bytes: &[u8], texture: usize) -> (loaded: bool)
        ensures
            loaded == (decoded_size(bytes@) is Some),
            loaded ==> final(self).spec_sets() == old(self).spec_sets().insert(
                firstgid,
                Tileset { dimensions: decoded_size(bytes@).unwrap(), texture },
            ),
            !loaded ==> final(self).spec_sets() == old(self).spec_sets(),
            final(self).tiled == old(self).tiled,
    {
        match image_size(bytes) {
            Some(dimensions) => {
                self.record_tileset(firstgid, dimensions, texture);
                true
            },
            None => false,
        }
    }
}
} // verus!
