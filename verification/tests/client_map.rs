use dyrah::client::map::{GameMap, TileQuad, Tileset};
use dyrah::shared::map::{TileOffset, TiledLayer, TiledMap, TiledTileset};

fn tileset(firstgid: u32, w: u32, h: u32, offset: Option<TileOffset>) -> TiledTileset {
    TiledTileset {
        firstgid,
        source: None,
        image: Some("set.png".to_string()),
        tilecount: None,
        tilewidth: Some(w),
        tileheight: Some(h),
        tileoffset: offset,
    }
}

fn sample() -> (GameMap, TiledLayer) {
    let tiled = TiledMap {
        width: 3,
        height: 2,
        tilewidth: 32,
        tileheight: 32,
        layers: vec![],
        tilesets: vec![tileset(1, 32, 32, None), tileset(11, 32, 64, Some(TileOffset { x: 2, y: -3 }))],
    };
    let mut map = GameMap::new(tiled);
    map.sets.insert(1, Tileset { dimensions: (128, 96), texture: 5 });
    map.sets.insert(11, Tileset { dimensions: (64, 128), texture: 6 });
    let layer = TiledLayer {
        width: Some(3),
        height: Some(2),
        name: "ground".to_string(),
        visible: true,
        data: Some(vec![0, 1, 6, 11, 14, 0]),
        objects: None,
    };
    (map, layer)
}

#[test]
fn empty_cells_draw_nothing() {
    let (map, layer) = sample();
    assert!(map.cell_is_defined(&layer, 0, 0));
    assert_eq!(map.tile_quad(&layer, 0, 0), None);
    assert_eq!(map.tile_quad(&layer, 2, 1), None);
}

#[test]
fn first_tileset_quads() {
    let (map, layer) = sample();
    // Tile 6 is local tile 5: four tiles per 128 px row, so column 1, row 1.
    assert_eq!(
        map.tile_quad(&layer, 2, 0),
        Some(TileQuad { texture: 5, src_x: 32, src_y: 32, src_w: 32, src_h: 32, img_w: 128, img_h: 96, draw_x: 64, draw_y: 0 })
    );
    assert_eq!(map.tile_quad(&layer, 1, 0).unwrap().src_x, 0);
}

#[test]
fn later_tileset_wins_and_offsets_apply() {
    let (map, layer) = sample();
    // Tile 14 is local tile 3 of the second set: two tiles per row, column 1, row 1.
    assert_eq!(
        map.tile_quad(&layer, 1, 1),
        Some(TileQuad { texture: 6, src_x: 32, src_y: 64, src_w: 32, src_h: 64, img_w: 64, img_h: 128, draw_x: 34, draw_y: 32 - 64 + 32 - 3 })
    );
    assert_eq!(map.tile_quad(&layer, 0, 1).unwrap().texture, 6);
}

#[test]
fn undefined_cells_are_reported() {
    let (mut map, layer) = sample();
    assert!(!map.cell_is_defined(&layer, 3, 0));
    assert!(!map.cell_is_defined(&layer, 0, 2));
    map.sets.remove(&11);
    assert!(!map.cell_is_defined(&layer, 0, 1));
    assert!(map.cell_is_defined(&layer, 2, 0));
}

#[test]
fn ids_below_every_tileset_draw_nothing() {
    let (mut map, layer) = sample();
    map.tiled.tilesets[0].firstgid = 2;
    assert_eq!(map.tile_quad(&layer, 1, 0), None);
}

#[test]
fn layer_quads_come_in_row_major_order() {
    let (mut map, layer) = sample();
    assert!(map.layer_is_drawable(&layer));
    let quads = map.layer_quads(&layer);
    let expected = vec![
        map.tile_quad(&layer, 1, 0).unwrap(),
        map.tile_quad(&layer, 2, 0).unwrap(),
        map.tile_quad(&layer, 0, 1).unwrap(),
        map.tile_quad(&layer, 1, 1).unwrap(),
    ];
    assert_eq!(quads, expected);
    assert_eq!(quads[0].src_x, 0);
    assert_eq!(quads[3].texture, 6);
    map.sets.remove(&11);
    assert!(!map.layer_is_drawable(&layer));
    let sizeless = TiledLayer { width: None, ..layer };
    assert!(!map.layer_is_drawable(&sizeless));
}

fn png(width: u32, height: u32) -> Vec<u8> {
    let img = image::RgbaImage::new(width, height);
    let mut bytes = std::io::Cursor::new(Vec::new());
    img.write_to(&mut bytes, image::ImageFormat::Png).unwrap();
    bytes.into_inner()
}

#[test]
fn tilesets_load_with_their_decoded_size() {
    let (mut map, layer) = sample();
    map.sets.clear();
    assert!(map.load_tileset(1, &png(128, 96), 5));
    assert!(map.load_tileset(11, &png(64, 128), 6));
    assert_eq!(map.sets.get(&1).map(|t| (t.dimensions, t.texture)), Some(((128, 96), 5)));
    assert_eq!(map.sets.get(&11).map(|t| (t.dimensions, t.texture)), Some(((64, 128), 6)));
    // The decoded sizes drive the quads exactly as recorded ones do.
    assert_eq!(map.tile_quad(&layer, 2, 0).unwrap().src_y, 32);
    // Bytes that are no image leave the map as it was.
    assert!(!map.load_tileset(21, b"not an image", 7));
    assert!(map.sets.get(&21).is_none());
    assert_eq!(map.sets.len(), 2);
    map.record_tileset(21, (32, 32), 8);
    assert_eq!(map.sets.get(&21).map(|t| (t.dimensions, t.texture)), Some(((32, 32), 8)));
}

#[test]
fn cells_without_data_need_no_index() {
    let (map, _) = sample();
    let layer = TiledLayer {
        width: Some(u32::MAX),
        height: Some(3),
        name: "objects".to_string(),
        visible: true,
        data: None,
        objects: None,
    };
    assert!(map.cell_is_defined(&layer, u32::MAX - 1, 2));
    assert_eq!(map.tile_quad(&layer, u32::MAX - 1, 2), None);
}
