use vstd::prelude::*;

use crate::bytes::{bytes_to_string, read_u16, text_of, u16_be};
use crate::cells::{cells_match, contains_attribute, first_attributes, lemma_matching_attributes, CellSource};
use crate::error::Error;
use crate::game::{GameType, JSW2_GAME_LENGTH};
use crate::jsw_parser::{game_rooms, sprite_at};
use crate::raw_game::{CellBehaviour, JswRawCell, JswRawGame, JswRawRoom, ROOM_LAYOUT_SIZE};
use crate::text::{compressed_text, read_compressed_text};

verus! {

/// Memory address at which the payload starts; stored addresses are absolute.
pub const RAM_OFFSET: u16 = 0x5C00;
/// Payload position of the pointer to the room table.
pub const ROOM_TABLE_POINTER_ADDR: usize = 0x2269;
pub const JSW2_ROOM_COUNT: usize = 134;
pub const ROOM_NAME_OFFSET: usize = 0x0C;
pub const CELL_HIGH_BITS_OFFSET: usize = 2;
pub const CELL_COUNT: usize = 8;
pub const CELL_LENGTH: usize = 9;
/// Payload position of cell record zero.
pub const CELL_BASE: usize = 0x3078;

/// Decoder for the third game.
///
/// Room layouts of this format are not decoded: each room comes out with an all-zero
/// layout.
pub struct RawJsw2Game;

/// The payload position that the absolute address stored at `pos` points to.
pub open spec fn read_addr_spec(data: Seq<u8>, pos: int) -> Result<int, Error> {
    if pos < 0 || pos >= data.len() {
        Err(Error::ReadPastEnd { position: pos as usize })
    } else if pos + 1 >= data.len() {
        Err(Error::ReadPastEnd { position: (pos + 1) as usize })
    } else {
        let v = u16_be(data[pos], data[pos + 1]);
        if v >= RAM_OFFSET {
            Ok(v - RAM_OFFSET)
        } else {
            Err(Error::InvalidAddress { address: v })
        }
    }
}

/// Where room `n` starts: looked up in the room table, whose own address is stored at a
/// fixed position.
pub open spec fn room_addr_spec(data: Seq<u8>, n: int) -> Result<int, Error> {
    match read_addr_spec(data, ROOM_TABLE_POINTER_ADDR as int) {
        Err(e) => Err(e),
        Ok(table) => read_addr_spec(data, table + n * 2),
    }
}

/// Behaviour of the third game's cell slots.
pub open spec fn jsw2_behaviour_spec(slot: int) -> CellBehaviour {
    if slot == 0 {
        CellBehaviour::Water
    } else if slot == 1 {
        CellBehaviour::Earth
    } else if slot == 2 {
        CellBehaviour::Fire
    } else if slot == 3 || slot == 6 {
        CellBehaviour::RRamp
    } else if slot == 4 {
        CellBehaviour::LConveyor
    } else if slot == 5 {
        CellBehaviour::Item
    } else if slot == 7 {
        CellBehaviour::RConveyor
    } else {
        CellBehaviour::Air
    }
}

/// Payload position of cell slot `i` of the room at `off`: its 9-bit record number is
/// bit `7 - i` of the high-bit byte above the slot's low byte.
pub open spec fn cell_record(data: Seq<u8>, off: int, i: int) -> int {
    let hbits = data[off + CELL_HIGH_BITS_OFFSET];
    let low = data[off + CELL_HIGH_BITS_OFFSET + 1 + i];
    u16_be((hbits >> ((7 - i) as u8)) & 1, low) * CELL_LENGTH + CELL_BASE
}

/// Cell slot `i` of the room at `off`.
pub open spec fn slot_source(data: Seq<u8>, off: int, i: int) -> CellSource {
    let p = cell_record(data, off, i);
    CellSource {
        id: i as u8,
        attribute: data[p],
        behaviour: jsw2_behaviour_spec(i),
        sprite: data.subrange(p + 1, p + 9),
    }
}

/// The eight cell slots of the room at `off`.
pub open spec fn slot_sources(data: Seq<u8>, off: int) -> Seq<CellSource> {
    Seq::new(CELL_COUNT as nat, |i: int| slot_source(data, off, i))
}

/// Why room `n` cannot be decoded, if it cannot: its address, its name or its layout
/// pointer.
pub open spec fn room_error(data: Seq<u8>, n: int) -> Option<Error> {
    match room_addr_spec(data, n) {
        Err(e) => Some(e),
        Ok(off) => match compressed_text(data, off + ROOM_NAME_OFFSET) {
            Err(e) => Some(e),
            Ok(t) => if text_of(t) is None {
                Some(Error::InvalidUtf8 { position: (off + ROOM_NAME_OFFSET) as usize })
            } else {
                match read_addr_spec(data, off) {
                    Err(e) => Some(e),
                    Ok(_) => None,
                }
            },
        },
    }
}

/// `room` is room `n` of the payload: its decompressed name, its cells, an all-zero
/// layout.
pub open spec fn room_matches(room: JswRawRoom, data: Seq<u8>, n: int) -> bool {
    let off = room_addr_spec(data, n)->Ok_0;
    &&& room.room_no == n
    &&& room.name@ == text_of(compressed_text(data, off + ROOM_NAME_OFFSET)->Ok_0).unwrap()
    &&& room.layout@ == Seq::new(ROOM_LAYOUT_SIZE as nat, |k: int| 0u8)
    &&& cells_match(room.cells@, first_attributes(slot_sources(data, off)))
}

/// Room `n` is the first that cannot be decoded.
pub open spec fn first_bad_room(data: Seq<u8>, n: int) -> bool {
    &&& 0 <= n < JSW2_ROOM_COUNT
    &&& room_error(data, n) is Some
    &&& forall|m: int| 0 <= m < n ==> room_error(data, m) is None
}

/// What decoding the rooms of `data` gives: an error for a payload shorter than the
/// game, else the error of the first room that cannot be decoded, else every room.
pub open spec fn rooms_outcome(data: Seq<u8>, r: Result<Vec<JswRawRoom>, Error>) -> bool {
    if data.len() < JSW2_GAME_LENGTH {
        r matches Err(e) && e == Error::ReadPastEnd { position: data.len() as usize }
    } else if forall|n: int| 0 <= n < JSW2_ROOM_COUNT ==> room_error(data, n) is None {
        r matches Ok(rooms) && rooms@.len() == JSW2_ROOM_COUNT && forall|n: int|
            0 <= n < JSW2_ROOM_COUNT ==> room_matches(#[trigger] rooms@[n], data, n)
    } else {
        r matches Err(e) && exists|n: int| first_bad_room(data, n) && Some(e) == room_error(data, n)
    }
}

impl RawJsw2Game {
    /// Behaviour of cell slot `cell_no`.
    pub fn get_cell_behaviour(cell_no: usize) -> (r: CellBehaviour)
        ensures
            r == jsw2_behaviour_spec(cell_no as int),
    {
        match cell_no {
            0 => CellBehaviour::Water,
            1 => CellBehaviour::Earth,
            2 => CellBehaviour::Fire,
            3 => CellBehaviour::RRamp,
            4 => CellBehaviour::LConveyor,
            5 => CellBehaviour::Item,
            6 => CellBehaviour::RRamp,
            7 => CellBehaviour::RConveyor,
            _ => CellBehaviour::Air,
        }
    }

    /// Reads a stored absolute address and turns it into a payload position.
    pub fn read_addr_16(data: &[u8], pos: usize) -> (r: Result<usize, Error>)
        ensures
            r matches Ok(a) ==> read_addr_spec(data@, pos as int) == Ok::<int, Error>(a as int),
            r matches Err(e) ==> read_addr_spec(data@, pos as int) == Err::<int, Error>(e),
    {
        match read_u16(data, pos) {
            Ok(v) => {
                if v >= RAM_OFFSET {
                    Ok((v - RAM_OFFSET) as usize)
                } else {
                    Err(Error::InvalidAddress { address: v })
                }
            },
            Err(e) => Err(e),
        }
    }

    /// The cells of the room at `room_offset`: eight slots located through the record
    /// numbers, without those that repeat an earlier slot's attribute.
    pub fn extract_cells(data: &[u8], room_offset: usize) -> (r: Vec<JswRawCell>)
        requires
            data@.len() >= JSW2_GAME_LENGTH,
            room_offset + CELL_HIGH_BITS_OFFSET + 1 + CELL_COUNT <= data@.len(),
        ensures
            cells_match(r@, first_attributes(slot_sources(data@, room_offset as int))),
    {
        let ghost slots = slot_sources(data@, room_offset as int);
        let len = data.len();
        let hbits = data[room_offset + CELL_HIGH_BITS_OFFSET];
        let mut cells: Vec<JswRawCell> = Vec::new();
        let mut i: usize = 0;
        assert(slots.take(0) =~= seq![]);
        while i < CELL_COUNT
            invariant
                data@.len() >= JSW2_GAME_LENGTH,
                len == data@.len(),
                room_offset + CELL_HIGH_BITS_OFFSET + 1 + CELL_COUNT <= data@.len(),
                hbits == data@[room_offset + CELL_HIGH_BITS_OFFSET],
                slots == slot_sources(data@, room_offset as int),
                i <= CELL_COUNT,
                cells_match(cells@, first_attributes(slots.take(i as int))),
            decreases CELL_COUNT - i,
        {
            let low = data[room_offset + CELL_HIGH_BITS_OFFSET + 1 + i];
            let high = (hbits >> (7 - i) as u8) & 1;
            assert(high <= 1) by (bit_vector)
                requires
                    high == (hbits >> ((7 - i) as u8)) & 1,
            ;
            let word = high as usize * 256 + low as usize;
            let p = word * CELL_LENGTH + CELL_BASE;
            assert(p == cell_record(data@, room_offset as int, i as int));
            let attribute = data[p];
            let ghost prev = first_attributes(slots.take(i as int));
            assert(slots.take(i + 1).drop_last() =~= slots.take(i as int));
            assert(slots.take(i + 1).last() == slots[i as int]);
            proof {
                lemma_matching_attributes(cells@, prev, attribute);
            }
            if !contains_attribute(&cells, attribute) {
                let sprite = sprite_at(data, p + 1);
                let behaviour = Self::get_cell_behaviour(i);
                let cell = JswRawCell::new(i as u8, attribute, behaviour, sprite);
                cells.push(cell);
                assert(cells_match(cells@, prev.push(slots[i as int])));
            }
            i = i + 1;
        }
        assert(slots.take(CELL_COUNT as int) =~= slots);
        cells
    }

    /// Decodes one room: its address from the room table, its compressed name, its cells
    /// and its layout pointer.
    pub fn extract_room(data: &[u8], room_no: u8) -> (r: Result<JswRawRoom, Error>)
        requires
            data@.len() >= JSW2_GAME_LENGTH,
            room_no < JSW2_ROOM_COUNT,
        ensures
            room_error(data@, room_no as int) matches Some(e) ==> (r matches Err(x) && x == e),
            room_error(data@, room_no as int) is None ==> (r matches Ok(room) && room_matches(
                room,
                data@,
                room_no as int,
            )),
    {
        let table = match Self::read_addr_16(data, ROOM_TABLE_POINTER_ADDR) {
            Ok(a) => a,
            Err(e) => {
                return Err(e);
            },
        };
        let room_offset = match Self::read_addr_16(data, table + room_no as usize * 2) {
            Ok(a) => a,
            Err(e) => {
                return Err(e);
            },
        };
        let text = match read_compressed_text(data, room_offset + ROOM_NAME_OFFSET) {
            Ok(t) => t,
            Err(e) => {
                return Err(e);
            },
        };
        assert(room_offset + ROOM_NAME_OFFSET < data@.len());
        let name = match bytes_to_string(text) {
            Some(s) => s,
            None => {
                return Err(Error::InvalidUtf8 { position: room_offset + ROOM_NAME_OFFSET });
            },
        };
        let cells = Self::extract_cells(data, room_offset);
        match Self::read_addr_16(data, room_offset) {
            Ok(_) => {},
            Err(e) => {
                return Err(e);
            },
        }
        let layout: Vec<u8> = vec![0u8; ROOM_LAYOUT_SIZE];
        assert(layout@ =~= Seq::new(ROOM_LAYOUT_SIZE as nat, |k: int| 0u8));
        Ok(JswRawRoom { room_no, name, layout, cells })
    }

    /// Decodes the rooms in table order.
    pub fn extract_rooms(data: &[u8]) -> (r: Result<Vec<JswRawRoom>, Error>)
        ensures
            rooms_outcome(data@, r),
    {
        let len = data.len();
        if len < JSW2_GAME_LENGTH {
            return Err(Error::ReadPastEnd { position: len });
        }
        let mut rooms: Vec<JswRawRoom> = Vec::new();
        let mut room_no: u8 = 0;
        while (room_no as usize) < JSW2_ROOM_COUNT
            invariant
                data@.len() >= JSW2_GAME_LENGTH,
                room_no <= JSW2_ROOM_COUNT,
                rooms@.len() == room_no,
                forall|n: int| 0 <= n < room_no ==> room_error(data@, n) is None,
                forall|n: int| 0 <= n < room_no ==> room_matches(#[trigger] rooms@[n], data@, n),
            decreases JSW2_ROOM_COUNT - room_no,
        {
            match Self::extract_room(data, room_no) {
                Ok(room) => {
                    rooms.push(room);
                },
                Err(e) => {
                    assert(first_bad_room(data@, room_no as int));
                    return Err(e);
                },
            }
            room_no = room_no + 1;
        }
        Ok(rooms)
    }

    /// Decodes the third game from its payload.
    pub fn extract_game(data: &[u8]) -> (r: Result<JswRawGame, Error>)
        ensures
            r matches Ok(g) ==> g.game_type == GameType::JSW2,
            rooms_outcome(data@, game_rooms(r)),
    {
        match Self::extract_rooms(data) {
            Ok(rooms) => Ok(JswRawGame { game_type: GameType::JSW2, rooms }),
            Err(e) => Err(e),
        }
    }
}

} // verus!
