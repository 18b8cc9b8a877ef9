use vstd::prelude::*;

use crate::bytes::{copy_bytes, read_trimmed_string, text_of, trim_of, u16_be};
use crate::cells::{
    cells_match, contains_attribute, first_attributes, jsw_behaviour_spec, lemma_matching_attributes,
    CellSource,
};
use crate::error::Error;
use crate::game::{GameType, JSW_GAME_LENGTH};
use crate::layout::{unpack_layout, unpack_spec};
use crate::raw_game::{
    CellBehaviour, ConveyorDirection, JswRawCell, JswRawGame, JswRawRoom, RampDirection,
    ROOM_LAYOUT_SIZE, ROOM_LAYOUT_WIDTH,
};

verus! {

pub const ROOMS_OFFSET: usize = 0x4000;
pub const ROOM_SIZE: usize = 0x100;
/// Rooms decoded: the table holds one more, which is left out.
pub const JSW_ROOM_COUNT: usize = 59;
pub const ROOM_NAME_OFFSET: usize = 0x80;
pub const ROOM_NAME_LENGTH: usize = 0x20;
pub const CELLS_OFFSET: usize = 0xA0;
pub const CELL_COUNT: usize = 6;
pub const CELL_LENGTH: usize = 9;
pub const CONVEYOR_OFFSET: usize = 0xD6;
pub const RAMP_OFFSET: usize = 0x26F;
pub const ITEM_SPRITE_OFFSET: usize = 0xE1;
pub const LAYOUT_BYTES: usize = 0x80;
/// Layout value of the item cell.
pub const ITEM_ID: u8 = 6;
pub const ATTRIBUTE_BUFFER_ADDRESS: u16 = 0x5E00;
pub const ITEM_TABLE_OFFSET_1: usize = 0x2400;
pub const ITEM_TABLE_OFFSET_2: usize = 0x2500;
pub const ITEM_TABLE_LENGTH: usize = 0x100;

/// Decoder for the second game.
pub struct RawJswGame;

/// A room's conveyor and ramp: direction, position on screen and length.
#[derive(Clone, Copy, Debug)]
pub struct ConveyorAndRamp {
    pub conveyor_direction: ConveyorDirection,
    pub conveyor_position: (u16, u16),
    pub conveyor_length: u8,
    pub ramp_direction: RampDirection,
    pub ramp_position: (u16, u16),
    pub ramp_length: u8,
}

/// Where room `n` starts in the payload.
pub open spec fn room_start(n: int) -> int {
    ROOMS_OFFSET + n * ROOM_SIZE
}

/// Column and row of a screen attribute address; addresses below the attribute buffer
/// give the origin.
pub open spec fn screen_position(addr: u16) -> (u16, u16) {
    if addr >= ATTRIBUTE_BUFFER_ADDRESS {
        (
            ((addr - ATTRIBUTE_BUFFER_ADDRESS) % 32) as u16,
            ((addr - ATTRIBUTE_BUFFER_ADDRESS) / 32) as u16,
        )
    } else {
        (0, 0)
    }
}

/// The conveyor and ramp records of room `n`: a direction byte (non-zero is left), a
/// big-endian attribute address and a length each.
pub open spec fn conveyor_and_ramp_spec(data: Seq<u8>, n: int) -> ConveyorAndRamp {
    let c = room_start(n) + CONVEYOR_OFFSET;
    let r = room_start(n) + RAMP_OFFSET;
    ConveyorAndRamp {
        conveyor_direction: if data[c] > 0 {
            ConveyorDirection::Left
        } else {
            ConveyorDirection::Right
        },
        conveyor_position: screen_position(u16_be(data[c + 1], data[c + 2])),
        conveyor_length: data[c + 3],
        ramp_direction: if data[r] > 0 {
            RampDirection::Left
        } else {
            RampDirection::Right
        },
        ramp_position: screen_position(u16_be(data[r + 1], data[r + 2])),
        ramp_length: data[r + 3],
    }
}

/// Cell slot `i` of room `n`.
pub open spec fn slot_source(data: Seq<u8>, n: int, i: int) -> CellSource {
    let cr = conveyor_and_ramp_spec(data, n);
    let p = room_start(n) + CELLS_OFFSET + i * CELL_LENGTH;
    CellSource {
        id: i as u8,
        attribute: data[p],
        behaviour: jsw_behaviour_spec(
            i,
            cr.conveyor_direction == ConveyorDirection::Left,
            cr.ramp_direction == RampDirection::Left,
        ),
        sprite: data.subrange(p + 1, p + 9),
    }
}

/// The six cell slots of room `n`.
pub open spec fn slot_sources(data: Seq<u8>, n: int) -> Seq<CellSource> {
    Seq::new(CELL_COUNT as nat, |i: int| slot_source(data, n, i))
}

/// The item cell's attribute: white ink on the air cell's paper, bright, no flash.
pub open spec fn item_attribute(air: u8) -> u8 {
    (air & 0x38) | 0x47
}

/// The cells of room `n`: the slots whose attribute no earlier slot has, then the item.
pub open spec fn cell_sources(data: Seq<u8>, n: int) -> Seq<CellSource> {
    let s = room_start(n) + ITEM_SPRITE_OFFSET;
    first_attributes(slot_sources(data, n)).push(
        CellSource {
            id: ITEM_ID,
            attribute: item_attribute(data[room_start(n) + CELLS_OFFSET]),
            behaviour: CellBehaviour::Item,
            sprite: data.subrange(s, s + 8),
        },
    )
}

/// Room number and layout position of item table entry `i`.
pub open spec fn item_entry(data: Seq<u8>, i: int) -> (u8, u16) {
    let b1 = data[ITEM_TABLE_OFFSET_1 + i];
    let b2 = data[ITEM_TABLE_OFFSET_2 + i];
    ((b1 & 0x3f) as u8, u16_be((b1 >> 7u8) & 1, b2))
}

/// The entries of the first `t` item table rows, skipping rows whose two bytes are zero.
pub open spec fn item_entries(data: Seq<u8>, t: int) -> Seq<(u8, u16)>
    decreases t,
{
    if t <= 0 {
        seq![]
    } else {
        let prev = item_entries(data, t - 1);
        if data[ITEM_TABLE_OFFSET_1 + t - 1] == 0 && data[ITEM_TABLE_OFFSET_2 + t - 1] == 0 {
            prev
        } else {
            prev.push(item_entry(data, t - 1))
        }
    }
}

/// The layout with the item cell placed at each in-range position that an entry gives
/// for `room`.
pub open spec fn overlay_items(layout: Seq<u8>, entries: Seq<(u8, u16)>, room: u8) -> Seq<u8>
    decreases entries.len(),
{
    if entries.len() == 0 {
        layout
    } else {
        let prev = overlay_items(layout, entries.drop_last(), room);
        let e = entries.last();
        if e.0 == room && (e.1 as int) < ROOM_LAYOUT_SIZE {
            prev.update(e.1 as int, ITEM_ID)
        } else {
            prev
        }
    }
}

/// The layout of room `n`: the unpacked layout bytes with the items overlaid.
pub open spec fn layout_spec(data: Seq<u8>, n: int) -> Seq<u8> {
    overlay_items(
        unpack_spec(data.subrange(room_start(n), room_start(n) + LAYOUT_BYTES)),
        item_entries(data, ITEM_TABLE_LENGTH as int),
        n as u8,
    )
}

/// The raw name field of room `n`.
pub open spec fn name_field(data: Seq<u8>, n: int) -> Seq<u8> {
    let p = room_start(n) + ROOM_NAME_OFFSET;
    data.subrange(p, p + ROOM_NAME_LENGTH)
}

/// The name field of room `n` is valid UTF-8.
pub open spec fn name_valid(data: Seq<u8>, n: int) -> bool {
    text_of(name_field(data, n)) is Some
}

/// `room` is room `n` of the payload.
pub open spec fn room_matches(room: JswRawRoom, data: Seq<u8>, n: int) -> bool {
    &&& room.room_no == n
    &&& room.name@ == trim_of(text_of(name_field(data, n)).unwrap())
    &&& room.layout@ == layout_spec(data, n)
    &&& cells_match(room.cells@, cell_sources(data, n))
}

/// The eight bitmap bytes at `pos`.
pub fn sprite_at(data: &[u8], pos: usize) -> (r: [u8; 8])
    requires
        pos + 8 <= data@.len(),
    ensures
        r@ == data@.subrange(pos as int, pos + 8),
{
    let r = [
        data[pos],
        data[pos + 1],
        data[pos + 2],
        data[pos + 3],
        data[pos + 4],
        data[pos + 5],
        data[pos + 6],
        data[pos + 7],
    ];
    assert(r@ =~= data@.subrange(pos as int, pos + 8));
    r
}

impl RawJswGame {
    /// Behaviour of cell slot `cell_no`.
    pub fn get_cell_behaviour(
        cell_no: usize,
        conveyor_direction: ConveyorDirection,
        ramp_direction: RampDirection,
    ) -> (r: CellBehaviour)
        ensures
            r == jsw_behaviour_spec(
                cell_no as int,
                conveyor_direction == ConveyorDirection::Left,
                ramp_direction == RampDirection::Left,
            ),
    {
        match cell_no {
            0 => CellBehaviour::Air,
            1 => CellBehaviour::Water,
            2 => CellBehaviour::Earth,
            3 => CellBehaviour::Fire,
            4 => {
                if ramp_direction == RampDirection::Left {
                    CellBehaviour::LRamp
                } else {
                    CellBehaviour::RRamp
                }
            },
            5 => {
                if conveyor_direction == ConveyorDirection::Left {
                    CellBehaviour::LConveyor
                } else {
                    CellBehaviour::RConveyor
                }
            },
            _ => CellBehaviour::Air,
        }
    }

    /// Reads the conveyor and ramp records of a room.
    pub fn get_conveyor_and_ramp(data: &[u8], room_no: u8) -> (r: ConveyorAndRamp)
        requires
            data@.len() >= JSW_GAME_LENGTH,
            room_no < JSW_ROOM_COUNT,
        ensures
            r == conveyor_and_ramp_spec(data@, room_no as int),
    {
        let room_offset = ROOMS_OFFSET + room_no as usize * ROOM_SIZE;
        let c = room_offset + CONVEYOR_OFFSET;
        let conveyor_direction = if data[c] > 0 {
            ConveyorDirection::Left
        } else {
            ConveyorDirection::Right
        };
        let conveyor_address = data[c + 1] as u16 * 256 + data[c + 2] as u16;
        let mut conveyor_position: (u16, u16) = (0, 0);
        if conveyor_address >= ATTRIBUTE_BUFFER_ADDRESS {
            let p = conveyor_address - ATTRIBUTE_BUFFER_ADDRESS;
            conveyor_position = (p % ROOM_LAYOUT_WIDTH as u16, p / ROOM_LAYOUT_WIDTH as u16);
        }
        let conveyor_length = data[c + 3];
        let r = room_offset + RAMP_OFFSET;
        let ramp_direction = if data[r] > 0 {
            RampDirection::Left
        } else {
            RampDirection::Right
        };
        let ramp_address = data[r + 1] as u16 * 256 + data[r + 2] as u16;
        let mut ramp_position: (u16, u16) = (0, 0);
        if ramp_address >= ATTRIBUTE_BUFFER_ADDRESS {
            let p = ramp_address - ATTRIBUTE_BUFFER_ADDRESS;
            ramp_position = (p % ROOM_LAYOUT_WIDTH as u16, p / ROOM_LAYOUT_WIDTH as u16);
        }
        let ramp_length = data[r + 3];
        ConveyorAndRamp {
            conveyor_direction,
            conveyor_position,
            conveyor_length,
            ramp_direction,
            ramp_position,
            ramp_length,
        }
    }

    /// The cells of a room: the six slots, without those that repeat an earlier slot's
    /// attribute, then the item cell.
    pub fn extract_cells(data: &[u8], room_no: u8) -> (r: Vec<JswRawCell>)
        requires
            data@.len() >= JSW_GAME_LENGTH,
            room_no < JSW_ROOM_COUNT,
        ensures
            cells_match(r@, cell_sources(data@, room_no as int)),
    {
        let room_offset = ROOMS_OFFSET + room_no as usize * ROOM_SIZE;
        let cr = Self::get_conveyor_and_ramp(data, room_no);
        let ghost slots = slot_sources(data@, room_no as int);
        let mut cells: Vec<JswRawCell> = Vec::new();
        let mut i: usize = 0;
        assert(slots.take(0) =~= seq![]);
        while i < CELL_COUNT
            invariant
                data@.len() >= JSW_GAME_LENGTH,
                room_no < JSW_ROOM_COUNT,
                room_offset == room_start(room_no as int),
                cr == conveyor_and_ramp_spec(data@, room_no as int),
                slots == slot_sources(data@, room_no as int),
                i <= CELL_COUNT,
                cells_match(cells@, first_attributes(slots.take(i as int))),
            decreases CELL_COUNT - i,
        {
            let p = room_offset + CELLS_OFFSET + i * CELL_LENGTH;
            let attribute = data[p];
            let ghost prev = first_attributes(slots.take(i as int));
            assert(slots.take(i + 1).drop_last() =~= slots.take(i as int));
            assert(slots.take(i + 1).last() == slots[i as int]);
            proof {
                lemma_matching_attributes(cells@, prev, attribute);
            }
            if !contains_attribute(&cells, attribute) {
                let sprite = sprite_at(data, p + 1);
                let behaviour = Self::get_cell_behaviour(i, cr.conveyor_direction, cr.ramp_direction);
                let cell = JswRawCell::new(i as u8, attribute, behaviour, sprite);
                cells.push(cell);
                assert(cells_match(cells@, prev.push(slots[i as int])));
            }
            i = i + 1;
        }
        assert(slots.take(CELL_COUNT as int) =~= slots);
        let air = data[room_offset + CELLS_OFFSET];
        let sprite = sprite_at(data, room_offset + ITEM_SPRITE_OFFSET);
        let attribute = (air & 0x38) | 0x47;
        let item = JswRawCell::new(ITEM_ID, attribute, CellBehaviour::Item, sprite);
        cells.push(item);
        cells
    }

    /// The item table: for each non-empty row, in table order, the room number (low six
    /// bits of the first byte) and the layout position (the first byte's top bit above
    /// the second byte).
    pub fn extract_item_table(data: &[u8]) -> (r: Vec<(u8, u16)>)
        requires
            data@.len() >= JSW_GAME_LENGTH,
        ensures
            r@ == item_entries(data@, ITEM_TABLE_LENGTH as int),
    {
        let mut items: Vec<(u8, u16)> = Vec::new();
        let mut i: usize = 0;
        while i < ITEM_TABLE_LENGTH
            invariant
                data@.len() >= JSW_GAME_LENGTH,
                i <= ITEM_TABLE_LENGTH,
                items@ == item_entries(data@, i as int),
            decreases ITEM_TABLE_LENGTH - i,
        {
            let byte1 = data[ITEM_TABLE_OFFSET_1 + i];
            let byte2 = data[ITEM_TABLE_OFFSET_2 + i];
            if !(byte1 == 0 && byte2 == 0) {
                let room_no = byte1 & 0x3f;
                let item_pos: u16 = ((byte1 >> 7) & 1) as u16 * 256 + byte2 as u16;
                items.push((room_no, item_pos));
            }
            i = i + 1;
        }
        items
    }

    /// The layout of a room: 128 bytes of two-bit cell indices, then the item cell at
    /// each position that the item table gives for the room.
    pub fn extract_room_layout(data: &[u8], room_no: u8, item_table: &Vec<(u8, u16)>) -> (r: Vec<u8>)
        requires
            data@.len() >= JSW_GAME_LENGTH,
            room_no < JSW_ROOM_COUNT,
            item_table@ == item_entries(data@, ITEM_TABLE_LENGTH as int),
        ensures
            r@ == layout_spec(data@, room_no as int),
            r@.len() == ROOM_LAYOUT_SIZE,
    {
        let room_offset = ROOMS_OFFSET + room_no as usize * ROOM_SIZE;
        let packed = copy_bytes(data, room_offset, LAYOUT_BYTES);
        let mut layout = unpack_layout(packed.as_slice());
        let ghost base = layout@;
        let mut j: usize = 0;
        assert(item_table@.take(0) =~= seq![]);
        while j < item_table.len()
            invariant
                base.len() == ROOM_LAYOUT_SIZE,
                j <= item_table@.len(),
                layout@ == overlay_items(base, item_table@.take(j as int), room_no),
                layout@.len() == ROOM_LAYOUT_SIZE,
            decreases item_table@.len() - j,
        {
            let (room, pos) = item_table[j];
            assert(item_table@.take(j + 1).drop_last() =~= item_table@.take(j as int));
            if room == room_no && (pos as usize) < ROOM_LAYOUT_SIZE {
                layout.set(pos as usize, ITEM_ID);
            }
            j = j + 1;
        }
        assert(item_table@.take(item_table@.len() as int) =~= item_table@);
        layout
    }

    /// Decodes one room: its space-padded name, its cells and its layout.
    pub fn extract_room(data: &[u8], room_no: u8, item_table: &Vec<(u8, u16)>) -> (r: Result<JswRawRoom, Error>)
        requires
            data@.len() >= JSW_GAME_LENGTH,
            room_no < JSW_ROOM_COUNT,
            item_table@ == item_entries(data@, ITEM_TABLE_LENGTH as int),
        ensures
            r matches Ok(room) ==> room_matches(room, data@, room_no as int),
            r is Ok <==> name_valid(data@, room_no as int),
            r matches Err(e) ==> e == name_error(room_no as int),
    {
        let room_offset = ROOMS_OFFSET + room_no as usize * ROOM_SIZE;
        let name = match read_trimmed_string(data, room_offset + ROOM_NAME_OFFSET, ROOM_NAME_LENGTH) {
            Ok(name) => name,
            Err(e) => {
                return Err(e);
            },
        };
        let cells = Self::extract_cells(data, room_no);
        let layout = Self::extract_room_layout(data, room_no, item_table);
        Ok(JswRawRoom { room_no, name, layout, cells })
    }

    /// Decodes the rooms in table order.
    pub fn extract_rooms(data: &[u8]) -> (r: Result<Vec<JswRawRoom>, Error>)
        ensures
            rooms_outcome(data@, r),
    {
        let len = data.len();
        if len < JSW_GAME_LENGTH {
            return Err(Error::ReadPastEnd { position: len });
        }
        let item_table = Self::extract_item_table(data);
        let mut rooms: Vec<JswRawRoom> = Vec::new();
        let mut room_no: u8 = 0;
        while (room_no as usize) < JSW_ROOM_COUNT
            invariant
                data@.len() >= JSW_GAME_LENGTH,
                item_table@ == item_entries(data@, ITEM_TABLE_LENGTH as int),
                room_no <= JSW_ROOM_COUNT,
                rooms@.len() == room_no,
                forall|n: int| 0 <= n < room_no ==> name_valid(data@, n),
                forall|n: int| 0 <= n < room_no ==> room_matches(#[trigger] rooms@[n], data@, n),
            decreases JSW_ROOM_COUNT - room_no,
        {
            match Self::extract_room(data, room_no, &item_table) {
                Ok(room) => {
                    rooms.push(room);
                },
                Err(e) => {
                    assert(first_bad_name(data@, room_no as int));
                    return Err(e);
                },
            }
            room_no = room_no + 1;
        }
        Ok(rooms)
    }

    /// Decodes the second game from its payload.
    pub fn extract_game(data: &[u8]) -> (r: Result<JswRawGame, Error>)
        ensures
            r matches Ok(g) ==> g.game_type == GameType::JSW,
            rooms_outcome(data@, game_rooms(r)),
    {
        match Self::extract_rooms(data) {
            Ok(rooms) => Ok(JswRawGame { game_type: GameType::JSW, rooms }),
            Err(e) => Err(e),
        }
    }
}

/// The rooms of a decode result.
pub open spec fn game_rooms(r: Result<JswRawGame, Error>) -> Result<Vec<JswRawRoom>, Error> {
    match r {
        Ok(g) => Ok(g.rooms),
        Err(e) => Err(e),
    }
}

/// The error for a payload too short to hold the game.
pub open spec fn truncated(data: Seq<u8>) -> Error {
    Error::ReadPastEnd { position: data.len() as usize }
}

/// The error for room `n`'s name field.
pub open spec fn name_error(n: int) -> Error {
    Error::InvalidUtf8 { position: (room_start(n) + ROOM_NAME_OFFSET) as usize }
}

/// Room `n` is the first whose name field is not valid UTF-8.
pub open spec fn first_bad_name(data: Seq<u8>, n: int) -> bool {
    &&& 0 <= n < JSW_ROOM_COUNT
    &&& !name_valid(data, n)
    &&& forall|m: int| 0 <= m < n ==> name_valid(data, m)
}

/// Every room name field is valid UTF-8.
pub open spec fn all_names_valid(data: Seq<u8>) -> bool {
    forall|n: int| 0 <= n < JSW_ROOM_COUNT ==> name_valid(data, n)
}

/// The rooms are those of the payload, in table order.
pub open spec fn rooms_match(rooms: Seq<JswRawRoom>, data: Seq<u8>) -> bool {
    rooms.len() == JSW_ROOM_COUNT && forall|n: int|
        0 <= n < JSW_ROOM_COUNT ==> room_matches(#[trigger] rooms[n], data, n)
}

/// What decoding the rooms of `data` gives: an error for a payload shorter than the
/// game, else an error for the first room whose name is not UTF-8, else every room.
pub open spec fn rooms_outcome(data: Seq<u8>, r: Result<Vec<JswRawRoom>, Error>) -> bool {
    if data.len() < JSW_GAME_LENGTH {
        r matches Err(e) && e == truncated(data)
    } else if all_names_valid(data) {
        r matches Ok(rooms) && rooms_match(rooms@, data)
    } else {
        r matches Err(e) && exists|n: int| first_bad_name(data, n) && e == name_error(n)
    }
}

} // verus!
