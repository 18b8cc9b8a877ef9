use open_jsw::colours::{transparent, Rgba};
use open_jsw::converter::{Converter, RawToTiledConverter, SpriteSetContext};
use open_jsw::game::{
    signature, GameType, JSW2_GAME_LENGTH, JSW2_SIGNATURE_OFFSET, JSW_GAME_LENGTH,
    JSW_SIGNATURE_OFFSET, MM_GAME_LENGTH, MM_SIGNATURE_OFFSET,
};
use open_jsw::image::RgbaImage;
use open_jsw::jsw_parser::RawJswGame;
use open_jsw::raw_game::{CellBehaviour, ConveyorDirection, JswRawCell, JswRawGame, JswRawRoom, RampDirection};
use open_jsw::tiled::LayerType;
use open_jsw::{Error, GameConversionError};

fn put(data: &mut [u8], pos: usize, bytes: &[u8]) {
    data[pos..pos + bytes.len()].copy_from_slice(bytes);
}

fn padded_name(name: &str) -> Vec<u8> {
    let mut v = name.as_bytes().to_vec();
    v.resize(32, b' ');
    v
}

const SLOT_ATTRIBUTES: [u8; 6] = [0x00, 0x0A, 0x16, 0x21, 0x2D, 0x3B];

/// A payload of the second game whose first room is filled in.
fn jsw_payload() -> Vec<u8> {
    let mut data = vec![0u8; JSW_GAME_LENGTH];
    put(&mut data, JSW_SIGNATURE_OFFSET, &signature(GameType::JSW));
    for n in 0..59 {
        put(&mut data, 0x4000 + n * 0x100 + 0x80, &padded_name(""));
    }
    let room = 0x4000;
    put(&mut data, room, &[0b00_01_10_11, 0b01_01_00_00]);
    put(&mut data, room + 0x80, &padded_name("  The Bathroom"));
    for (i, a) in SLOT_ATTRIBUTES.iter().enumerate() {
        let p = room + 0xA0 + i * 9;
        data[p] = *a;
        put(&mut data, p + 1, &[i as u8 * 0x11; 8]);
    }
    put(&mut data, room + 0xE1, &[0xff; 8]);
    data[room + 0xD6] = 1;
    // one item in room 0 at position 5
    data[0x2400] = 0x00;
    data[0x2500] = 0x05;
    data
}

#[test]
fn jsw_room_decodes() {
    let data = jsw_payload();
    let game = JswRawGame::from_bytes(&data).unwrap();
    assert_eq!(game.game_type, GameType::JSW);
    assert_eq!(game.rooms.len(), 59);
    let room = &game.rooms[0];
    assert_eq!(room.room_no, 0);
    assert_eq!(room.name, "The Bathroom");
    assert_eq!(room.cells.len(), 7);
    let behaviours: Vec<CellBehaviour> = room.cells.iter().map(|c| c.behaviour).collect();
    assert_eq!(
        behaviours,
        vec![
            CellBehaviour::Air,
            CellBehaviour::Water,
            CellBehaviour::Earth,
            CellBehaviour::Fire,
            CellBehaviour::RRamp,
            CellBehaviour::LConveyor,
            CellBehaviour::Item
        ]
    );
    assert_eq!(room.cells[6].id, 6);
    assert_eq!(room.cells[6].attribute, 0x47);
    assert_eq!(room.cells[6].sprite, [0xff; 8]);
    assert_eq!(room.cells[2].sprite, [0x22; 8]);
    assert_eq!(room.layout.len(), 512);
    assert_eq!(room.layout[..8].to_vec(), vec![0, 1, 2, 3, 1, 6, 0, 0]);
    assert!(room.layout[8..].iter().all(|v| *v == 0));
    assert_eq!(game.rooms[1].name, "");
    assert_eq!(game.rooms[1].cells.len(), 2);
}

#[test]
fn jsw_duplicate_attributes_are_dropped() {
    let mut data = jsw_payload();
    data[0x4000 + 0xA0 + 3 * 9] = SLOT_ATTRIBUTES[1];
    let game = RawJswGame::extract_game(&data).unwrap();
    let ids: Vec<u8> = game.rooms[0].cells.iter().map(|c| c.id).collect();
    assert_eq!(ids, vec![0, 1, 2, 4, 5, 6]);
}

#[test]
fn jsw_conveyor_and_ramp_records() {
    let mut data = jsw_payload();
    put(&mut data, 0x4000 + 0xD6, &[0, 0x5E, 0x45, 7]);
    put(&mut data, 0x4000 + 0x26F, &[1, 0x5D, 0x00, 3]);
    let cr = RawJswGame::get_conveyor_and_ramp(&data, 0);
    assert_eq!(cr.conveyor_direction, ConveyorDirection::Right);
    assert_eq!(cr.conveyor_position, (5, 2));
    assert_eq!(cr.conveyor_length, 7);
    assert_eq!(cr.ramp_direction, RampDirection::Left);
    assert_eq!(cr.ramp_position, (0, 0));
    assert_eq!(cr.ramp_length, 3);
}

#[test]
fn jsw_item_table_skips_empty_rows() {
    let mut data = jsw_payload();
    data[0x2401] = 0x80 | 0x03;
    data[0x2501] = 0x10;
    let items = RawJswGame::extract_item_table(&data);
    assert_eq!(items, vec![(0, 5), (3, 0x110)]);
}

#[test]
fn truncated_payload_is_refused() {
    let data = vec![0u8; 100];
    assert!(matches!(RawJswGame::extract_game(&data), Err(Error::ReadPastEnd { position: 100 })));
}

#[test]
fn invalid_name_is_refused() {
    let mut data = jsw_payload();
    data[0x4000 + 0x100 + 0x80] = 0xff;
    assert!(matches!(
        RawJswGame::extract_game(&data),
        Err(Error::InvalidUtf8 { position: 0x4180 })
    ));
}

#[test]
fn mm_rooms_have_names_only() {
    let mut data = vec![b' '; MM_GAME_LENGTH];
    put(&mut data, MM_SIGNATURE_OFFSET, &signature(GameType::MM));
    put(&mut data, 0x3000 + 0x400 + 0x200, &padded_name("Central Cavern"));
    let game = JswRawGame::from_bytes(&data).unwrap();
    assert_eq!(game.game_type, GameType::MM);
    assert_eq!(game.rooms.len(), 20);
    assert_eq!(game.rooms[1].name, "Central Cavern");
    assert!(game.rooms.iter().all(|r| r.cells.is_empty() && r.layout == vec![0u8; 512]));
    let r = RawToTiledConverter.convert(&game);
    match r {
        Err(Error::GameConversionFailed { mode: GameConversionError::RoomConversionFailed { room }, .. }) => {
            assert_eq!(room, "")
        }
        _ => panic!("expected a room conversion error"),
    }
}

/// A payload of the third game: a room table at 0x7000, rooms at 0x8100 + 16 n.
fn jsw2_payload() -> Vec<u8> {
    let mut data = vec![0u8; JSW2_GAME_LENGTH];
    put(&mut data, JSW2_SIGNATURE_OFFSET, &signature(GameType::JSW2));
    put(&mut data, 0x2269, &(0x5C00u16 + 0x7000).to_be_bytes());
    for n in 0..134usize {
        let room = 0x8100 + n * 16;
        put(&mut data, 0x7000 + n * 2, &(0x5C00u16 + room as u16).to_be_bytes());
        put(&mut data, room, &(0x5C00u16 + 0x9000).to_be_bytes());
        data[room + 2] = 0b0000_0001;
        put(&mut data, room + 3, &[0, 1, 2, 3, 4, 5, 6, 0]);
        put(&mut data, room + 0xC, &[b'R', b'M' | 0x80]);
    }
    for i in 0..7usize {
        let p = 0x3078 + i * 9;
        data[p] = 0x10 + i as u8;
        put(&mut data, p + 1, &[i as u8; 8]);
    }
    let p = 0x3078 + 256 * 9;
    data[p] = 0x38;
    data
}

#[test]
fn jsw2_rooms_decode_through_pointers() {
    let data = jsw2_payload();
    let game = JswRawGame::from_bytes(&data).unwrap();
    assert_eq!(game.game_type, GameType::JSW2);
    assert_eq!(game.rooms.len(), 134);
    let room = &game.rooms[5];
    assert_eq!(room.room_no, 5);
    assert_eq!(room.name, "RM");
    assert_eq!(room.cells.len(), 8);
    assert_eq!(room.cells[7].attribute, 0x38);
    assert_eq!(room.cells[7].behaviour, CellBehaviour::RConveyor);
    assert_eq!(room.cells[0].behaviour, CellBehaviour::Water);
    assert_eq!(room.cells[3].sprite, [3; 8]);
    assert_eq!(room.layout, vec![0u8; 512]);
}

#[test]
fn jsw2_address_below_base_is_refused() {
    let mut data = jsw2_payload();
    put(&mut data, 0x7000 + 2 * 3, &[0x10, 0x00]);
    assert!(matches!(
        JswRawGame::from_bytes(&data),
        Err(Error::InvalidAddress { address: 0x1000 })
    ));
}

fn cell(id: u8, attribute: u8, sprite: [u8; 8]) -> JswRawCell {
    JswRawCell::new(id, attribute, CellBehaviour::Air, sprite)
}

fn one_room_game(cells: Vec<JswRawCell>, layout: Vec<u8>) -> JswRawGame {
    JswRawGame::new(
        GameType::JSW,
        vec![JswRawRoom { room_no: 0, name: "Only".to_string(), layout, cells }],
    )
}

#[test]
fn one_room_converts_to_one_group() {
    let cells = vec![cell(0, 0x00, [0; 8]), cell(1, 0x0A, [0x81; 8]), cell(2, 0x16, [0x3c; 8])];
    let mut layout = vec![0u8; 512];
    layout[33] = 1;
    layout[511] = 2;
    layout[100] = 9; // unknown id: shows the first cell
    let game = one_room_game(cells, layout);
    let out = RawToTiledConverter.convert(&game).unwrap();
    assert_eq!(out.map.width, 32);
    assert_eq!(out.map.height, 24);
    assert_eq!(out.map.layers.len(), 1);
    let group = &out.map.layers[0];
    assert_eq!(group.typ, LayerType::Group);
    assert_eq!(group.name, "Only");
    assert_eq!(group.id, 1);
    let subs = group.layers.as_ref().unwrap();
    assert_eq!(subs.len(), 3);
    assert_eq!(subs[0].class.as_deref(), Some("bg"));
    assert_eq!(subs[1].class.as_deref(), Some("dynamic"));
    assert_eq!(subs[2].class.as_deref(), Some("fg"));
    assert_eq!(subs[1].typ, LayerType::ObjectGroup);
    assert_eq!((subs[0].id, subs[1].id, subs[2].id), (2, 3, 4));
    let bg = subs[0].data.as_ref().unwrap();
    let fg = subs[2].data.as_ref().unwrap();
    assert_eq!(bg.len(), 768);
    // cell 0: ids 1, 2; cell 1: ids 3, 4; cell 2: ids 5, 6
    assert_eq!((bg[0], fg[0]), (1, 2));
    assert_eq!((bg[33], fg[33]), (3, 4));
    assert_eq!((bg[511], fg[511]), (5, 6));
    assert_eq!((bg[100], fg[100]), (1, 2));
    assert_eq!((bg[512], fg[767]), (0, 0));
    // two sprites per distinct cell
    assert_eq!(out.cell_sprites.len(), 6);
    assert_eq!(out.cell_spritesheet.width, 32);
    assert_eq!(out.map.tilesets.len(), 1);
    assert_eq!(out.map.tilesets[0].columns, 4);
    assert_eq!(out.map.tilesets[0].tilecount, 16);
    assert_eq!(out.map.tilesets[0].image.as_deref(), Some("gfx/cells.png"));
}

#[test]
fn equal_sprites_share_ids_across_rooms() {
    let room = |no: u8, name: &str| JswRawRoom {
        room_no: no,
        name: name.to_string(),
        layout: vec![0u8; 512],
        cells: vec![cell(0, 0x08, [0x0f; 8])],
    };
    let game = JswRawGame::new(GameType::JSW, vec![room(0, "A"), room(1, "B")]);
    let out = RawToTiledConverter.convert(&game).unwrap();
    assert_eq!(out.cell_sprites.len(), 2);
    assert_eq!(out.map.layers.len(), 2);
    assert_eq!(out.map.layers[0].name, "B");
    assert_eq!(out.map.layers[1].name, "A");
    assert_eq!(out.map.layers[0].id, 5);
    let a = out.map.layers[1].layers.as_ref().unwrap()[0].data.clone().unwrap();
    let b = out.map.layers[0].layers.as_ref().unwrap()[0].data.clone().unwrap();
    assert_eq!(a, b);
}

#[test]
fn background_sprite_is_paper_and_foreground_is_ink() {
    let game = one_room_game(vec![cell(0, 0x0A, [0x80, 0, 0, 0, 0, 0, 0, 0])], vec![0u8; 512]);
    let out = RawToTiledConverter.convert(&game).unwrap();
    let blue = Rgba { r: 0, g: 0, b: 0xcd, a: 0xff };
    let red = Rgba { r: 0xcd, g: 0, b: 0, a: 0xff };
    assert!(out.cell_sprites[0].pixels.iter().all(|p| *p == blue));
    assert_eq!(out.cell_sprites[1].pixels[0], red);
    assert_eq!(out.cell_sprites[1].pixels[1], transparent());
}

#[test]
fn room_without_cells_fails_by_name() {
    let game = one_room_game(vec![], vec![0u8; 512]);
    match RawToTiledConverter.convert(&game) {
        Err(Error::GameConversionFailed { mode: GameConversionError::RoomConversionFailed { room }, .. }) => {
            assert_eq!(room, "Only")
        }
        _ => panic!("expected a room conversion error"),
    }
}

#[test]
fn conversion_is_deterministic() {
    let data = jsw_payload();
    let game = JswRawGame::from_bytes(&data).unwrap();
    let a = RawToTiledConverter.convert(&game).unwrap();
    let b = Converter::convert(&RawToTiledConverter, &game).unwrap();
    assert_eq!(a.cell_spritesheet.bytes(), b.cell_spritesheet.bytes());
    assert_eq!(a.cell_sprites.len(), b.cell_sprites.len());
    for (x, y) in a.map.layers.iter().zip(b.map.layers.iter()) {
        let xs = x.layers.as_ref().unwrap();
        let ys = y.layers.as_ref().unwrap();
        assert_eq!(xs[0].data, ys[0].data);
        assert_eq!(xs[2].data, ys[2].data);
    }
}

#[test]
fn archive_to_map_end_to_end() {
    let mut archive = vec![0xAAu8; 300];
    archive.extend(jsw_payload());
    archive.extend(vec![0u8; 50]);
    let game = JswRawGame::from_bytes(&archive).unwrap();
    let out = RawToTiledConverter.convert(&game).unwrap();
    assert_eq!(out.map.layers.len(), 59);
    let first_room = &out.map.layers[58];
    assert_eq!(first_room.name, "The Bathroom");
    let subs = first_room.layers.as_ref().unwrap();
    let bg = subs[0].data.as_ref().unwrap();
    let fg = subs[2].data.as_ref().unwrap();
    // cells 0..5 take ids 1..12 in order; the item's black paper shares id 1
    assert_eq!((bg[0], fg[0]), (1, 2));
    assert_eq!((bg[1], fg[1]), (3, 4));
    assert_eq!((bg[2], fg[2]), (5, 6));
    assert_eq!((bg[3], fg[3]), (7, 8));
    assert_eq!((bg[4], fg[4]), (3, 4));
    assert_eq!((bg[5], fg[5]), (1, 13));
    assert_eq!((bg[6], fg[6]), (1, 2));
    assert_eq!(bg[600], 0);
    assert_eq!(out.cell_sprites.len(), 13);
    assert_eq!(out.cell_spritesheet.width, 32);
}

#[test]
fn sprite_set_hands_out_dense_ids() {
    let mut s = SpriteSetContext::new();
    let img = |v: u8| RgbaImage { width: 8, height: 8, pixels: vec![Rgba { r: v, g: 0, b: 0, a: 0 }; 64] };
    assert_eq!(s.find_sprite_id(img(1)), 1);
    assert_eq!(s.find_sprite_id(img(2)), 2);
    assert_eq!(s.find_sprite_id(img(1)), 1);
    assert_eq!(s.next_sprite_id, 3);
}
