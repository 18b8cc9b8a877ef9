use open_jsw::bytes::{read_string, read_trimmed_string, read_u16};
use open_jsw::converter::{fits_sheet, RawToTiledConverter};
use open_jsw::game::GameType;
use open_jsw::matrix::{Matrix, MatrixWrapper, SafeVecUpdate};
use open_jsw::raw_game::{CellBehaviour, JswRawCell, JswRawGame, JswRawRoom};
use open_jsw::tiled::{Layer, LayerType, MapOrientation, TileMatrix, TiledMap, Tileset};
use open_jsw::Error;

#[test]
fn big_endian_words() {
    assert_eq!(read_u16(&[0x12, 0x34], 0).unwrap(), 0x1234);
    assert!(matches!(read_u16(&[0x12], 0), Err(Error::ReadPastEnd { position: 1 })));
    assert!(matches!(read_u16(&[0x12], 3), Err(Error::ReadPastEnd { position: 3 })));
}

#[test]
fn strings_decode_and_trim() {
    let data = b"xx  Hall  yy".to_vec();
    assert_eq!(read_string(&data, 2, 8).unwrap(), "  Hall  ");
    assert_eq!(read_trimmed_string(&data, 2, 8).unwrap(), "Hall");
    assert!(matches!(read_string(&data, 8, 8), Err(Error::ReadPastEnd { position: 12 })));
    assert!(matches!(read_string(&[0x41, 0xC0], 0, 2), Err(Error::InvalidUtf8 { position: 0 })));
}

#[test]
fn game_too_large_for_one_sheet_is_refused() {
    let cell = JswRawCell::new(0, 0, CellBehaviour::Air, [0; 8]);
    let room = JswRawRoom { room_no: 0, name: "Big".to_string(), layout: vec![0; 512], cells: vec![cell; 0x80001] };
    let game = JswRawGame::new(GameType::JSW, vec![room]);
    assert!(!fits_sheet(&game.rooms));
    assert!(matches!(RawToTiledConverter.convert(&game), Err(Error::Custom(_))));
}

#[test]
fn matrices_index_row_major() {
    let m = Matrix::new(3, 2, 7u32);
    assert_eq!(m.get(2, 1), Some(&7));
    assert_eq!(m.get(0, 2), None);
    let w = MatrixWrapper::wrap_vec(vec![1, 2, 3, 4, 5, 6], 3);
    assert_eq!(w.get(1, 1), Some(&5));
    assert_eq!(w.get(3, 1), None);
    assert_eq!(w.into_vec(), vec![1, 2, 3, 4, 5, 6]);
    let mut t = TileMatrix::wrap_vec(vec![0u32; 6], 2);
    t.set(1, 2, 9);
    assert_eq!(t.get(1, 2), Some(&9));
    assert_eq!(t.into_vec(), vec![0, 0, 0, 0, 0, 9]);
}

#[test]
fn safe_update_only_inside() {
    let mut v = vec![1, 2, 3];
    assert!(v.safe_update(1, 9));
    assert!(!v.safe_update(3, 9));
    assert_eq!(v, vec![1, 9, 3]);
}

#[test]
fn map_hands_out_layer_ids() {
    let mut map = TiledMap::new(None, MapOrientation::Orthogonal, 4, 3, 8, 8);
    assert_eq!(map.tiledversion, "1.11.2");
    assert_eq!(map.version, "1.10");
    let tiles = Layer::new(&mut map, LayerType::TileLayer, "t".to_string());
    let group = Layer::new(&mut map, LayerType::Group, "g".to_string());
    assert_eq!((tiles.id, group.id, map.nextlayerid), (1, 2, 3));
    assert_eq!(tiles.data, Some(vec![0; 12]));
    assert_eq!((tiles.width, tiles.height), (Some(4), Some(3)));
    assert!(group.data.is_none());
    assert_eq!(map.next_object_id(), 1);
    assert_eq!(map.nextobjectid, 2);
}

#[test]
fn tileset_counts_tiles() {
    let t = Tileset::new("cells".to_string(), "gfx/cells.png".to_string(), 64, 32, 8, 8, 1);
    assert_eq!(t.columns, 8);
    assert_eq!(t.tilecount, 32);
    assert_eq!(t.firstgid, 1);
}
