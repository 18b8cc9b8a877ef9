use vstd::prelude::*;

use crate::bytes::{read_trimmed_string, text_of, trim_of};
use crate::error::Error;
use crate::game::{GameType, MM_GAME_LENGTH};
use crate::raw_game::{CellBehaviour, ConveyorDirection, JswRawGame, JswRawRoom, ROOM_LAYOUT_SIZE};

verus! {

pub const ROOMS_OFFSET: usize = 0x3000;
pub const ROOM_SIZE: usize = 0x400;
pub const MM_ROOM_COUNT: usize = 20;
pub const ROOM_NAME_OFFSET: usize = 0x200;
pub const ROOM_NAME_LENGTH: usize = 0x20;

/// Decoder for the first game.
///
/// Only the room names of this format are decoded. Its cells and layouts are not: each
/// room comes out with no cells and an all-zero layout.
pub struct RawMmGame;

/// Where room `n` starts in the payload.
pub open spec fn room_start(n: int) -> int {
    ROOMS_OFFSET + n * ROOM_SIZE
}

/// The raw name field of room `n`.
pub open spec fn name_field(data: Seq<u8>, n: int) -> Seq<u8> {
    let p = room_start(n) + ROOM_NAME_OFFSET;
    data.subrange(p, p + ROOM_NAME_LENGTH)
}

/// The name field of room `n` is valid UTF-8.
pub open spec fn name_valid(data: Seq<u8>, n: int) -> bool {
    text_of(name_field(data, n)) is Some
}

/// `room` is room `n` of the payload: its trimmed name, no cells, an all-zero layout.
pub open spec fn room_matches(room: JswRawRoom, data: Seq<u8>, n: int) -> bool {
    &&& room.room_no == n
    &&& room.name@ == trim_of(text_of(name_field(data, n)).unwrap())
    &&& room.layout@ == Seq::new(ROOM_LAYOUT_SIZE as nat, |k: int| 0u8)
    &&& room.cells@.len() == 0
}

/// The error for room `n`'s name field.
pub open spec fn name_error(n: int) -> Error {
    Error::InvalidUtf8 { position: (room_start(n) + ROOM_NAME_OFFSET) as usize }
}

/// Room `n` is the first whose name field is not valid UTF-8.
pub open spec fn first_bad_name(data: Seq<u8>, n: int) -> bool {
    &&& 0 <= n < MM_ROOM_COUNT
    &&& !name_valid(data, n)
    &&& forall|m: int| 0 <= m < n ==> name_valid(data, m)
}

/// What decoding the rooms of `data` gives: an error for a payload shorter than the
/// game, else an error for the first room whose name is not UTF-8, else every room.
pub open spec fn rooms_outcome(data: Seq<u8>, r: Result<Vec<JswRawRoom>, Error>) -> bool {
    if data.len() < MM_GAME_LENGTH {
        r matches Err(e) && e == Error::ReadPastEnd { position: data.len() as usize }
    } else if forall|n: int| 0 <= n < MM_ROOM_COUNT ==> name_valid(data, n) {
        r matches Ok(rooms) && rooms@.len() == MM_ROOM_COUNT && forall|n: int|
            0 <= n < MM_ROOM_COUNT ==> room_matches(#[trigger] rooms@[n], data, n)
    } else {
        r matches Err(e) && exists|n: int| first_bad_name(data, n) && e == name_error(n)
    }
}

/// Behaviour of the first game's cell slots; slot 4 is the conveyor.
pub open spec fn mm_behaviour_spec(slot: int, conveyor_left: bool) -> CellBehaviour {
    if slot == 1 || slot == 7 {
        CellBehaviour::Water
    } else if slot == 2 {
        CellBehaviour::Crumbly
    } else if slot == 3 {
        CellBehaviour::Earth
    } else if slot == 4 {
        if conveyor_left {
            CellBehaviour::LConveyor
        } else {
            CellBehaviour::RConveyor
        }
    } else if slot == 5 || slot == 6 {
        CellBehaviour::Fire
    } else {
        CellBehaviour::Air
    }
}

impl RawMmGame {
    /// Behaviour of cell slot `cell_no` in the first game's room format.
    pub fn get_cell_behaviour(cell_no: usize, conveyor_direction: ConveyorDirection) -> (r:
        CellBehaviour)
        ensures
            r == mm_behaviour_spec(cell_no as int, conveyor_direction == ConveyorDirection::Left),
    {
        match cell_no {
            0 => CellBehaviour::Air,
            1 => CellBehaviour::Water,
            2 => CellBehaviour::Crumbly,
            3 => CellBehaviour::Earth,
            4 => {
                if conveyor_direction == ConveyorDirection::Left {
                    CellBehaviour::LConveyor
                } else {
                    CellBehaviour::RConveyor
                }
            },
            5 => CellBehaviour::Fire,
            6 => CellBehaviour::Fire,
            7 => CellBehaviour::Water,
            _ => CellBehaviour::Air,
        }
    }

    /// Decodes one room's space-padded name.
    pub fn extract_room(data: &[u8], room_no: u8) -> (r: Result<JswRawRoom, Error>)
        requires
            data@.len() >= MM_GAME_LENGTH,
            room_no < MM_ROOM_COUNT,
        ensures
            r matches Ok(room) ==> room_matches(room, data@, room_no as int),
            r is Ok <==> name_valid(data@, room_no as int),
            r matches Err(e) ==> e == name_error(room_no as int),
    {
        let room_offset = ROOMS_OFFSET + room_no as usize * ROOM_SIZE;
        let name = match read_trimmed_string(data, room_offset + ROOM_NAME_OFFSET, ROOM_NAME_LENGTH) {
            Ok(name) => name,
            Err(e) => {
                return Err(e);
            },
        };
        let layout: Vec<u8> = vec![0u8; ROOM_LAYOUT_SIZE];
        assert(layout@ =~= Seq::new(ROOM_LAYOUT_SIZE as nat, |k: int| 0u8));
        Ok(JswRawRoom { room_no, name, layout, cells: Vec::new() })
    }

    /// Decodes the rooms in table order.
    pub fn extract_rooms(data: &[u8]) -> (r: Result<Vec<JswRawRoom>, Error>)
        ensures
            rooms_outcome(data@, r),
    {
        let len = data.len();
        if len < MM_GAME_LENGTH {
            return Err(Error::ReadPastEnd { position: len });
        }
        let mut rooms: Vec<JswRawRoom> = Vec::new();
        let mut room_no: u8 = 0;
        while (room_no as usize) < MM_ROOM_COUNT
            invariant
                data@.len() >= MM_GAME_LENGTH,
                room_no <= MM_ROOM_COUNT,
                rooms@.len() == room_no,
                forall|n: int| 0 <= n < room_no ==> name_valid(data@, n),
                forall|n: int| 0 <= n < room_no ==> room_matches(#[trigger] rooms@[n], data@, n),
            decreases MM_ROOM_COUNT - room_no,
        {
            match Self::extract_room(data, room_no) {
                Ok(room) => {
                    rooms.push(room);
                },
                Err(e) => {
                    assert(first_bad_name(data@, room_no as int));
                    return Err(e);
                },
            }
            room_no = room_no + 1;
        }
        Ok(rooms)
    }

    /// Decodes the first game from its payload.
    pub fn extract_game(data: &[u8]) -> (r: Result<JswRawGame, Error>)
        ensures
            r matches Ok(g) ==> g.game_type == GameType::MM,
            rooms_outcome(data@, crate::jsw_parser::game_rooms(r)),
    {
        match Self::extract_rooms(data) {
            Ok(rooms) => Ok(JswRawGame { game_type: GameType::MM, rooms }),
            Err(e) => Err(e),
        }
    }
}

} // verus!
