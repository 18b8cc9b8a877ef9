use vstd::prelude::*;

use crate::colours::{colour_of, rgba_spec, Rgba, SpeccyColour};
use crate::error::Error;
use crate::game::{has_window, identify_game, window_of, GameType, RawGameData};
use crate::jsw2_parser::RawJsw2Game;
use crate::jsw_parser::{game_rooms, RawJswGame};
use crate::mm_parser::RawMmGame;

verus! {

pub const ROOM_LAYOUT_WIDTH: usize = 32;
pub const ROOM_LAYOUT_HEIGHT: usize = 16;
pub const ROOM_LAYOUT_SIZE: usize = 512;

/// What a cell does to a player who touches it.
#[derive(Clone, Copy, Debug, PartialEq, Eq, Structural)]
pub enum CellBehaviour {
    Air,
    Water,
    Earth,
    Fire,
    LRamp,
    RRamp,
    LConveyor,
    RConveyor,
    Crumbly,
    Door,
    Trigger,
    Trampoline,
    Trap,
    Item,
}

/// Which way a room's conveyor moves.
#[derive(Clone, Copy, Debug, PartialEq, Eq, Structural)]
pub enum ConveyorDirection {
    Left,
    Right,
}

/// Which way a room's ramp rises.
#[derive(Clone, Copy, Debug, PartialEq, Eq, Structural)]
pub enum RampDirection {
    Left,
    Right,
}

/// The four fields of an attribute byte.
#[derive(Clone, Copy, Debug, PartialEq, Eq, Structural)]
pub struct Attribute {
    pub ink: SpeccyColour,
    pub paper: SpeccyColour,
    pub bright: bool,
    pub flash: bool,
}

/// The palette number of a colour.
pub open spec fn colour_index(c: SpeccyColour) -> u8 {
    match c {
        SpeccyColour::Black => 0,
        SpeccyColour::Blue => 1,
        SpeccyColour::Red => 2,
        SpeccyColour::Magenta => 3,
        SpeccyColour::Green => 4,
        SpeccyColour::Cyan => 5,
        SpeccyColour::Yellow => 6,
        SpeccyColour::White => 7,
    }
}

/// Ink in the low three bits, paper in bits 3 to 5, bright in bit 6, flash in bit 7.
pub open spec fn attribute_spec(a: u8) -> Attribute {
    Attribute {
        ink: colour_of(a & 0x07),
        paper: colour_of((a & 0x38) >> 3),
        bright: a & 0x40 != 0,
        flash: a & 0x80 != 0,
    }
}

/// The byte that holds the given fields.
pub open spec fn encode_attribute_spec(f: Attribute) -> u8 {
    (colour_index(f.ink) | (colour_index(f.paper) << 3u8) | (if f.bright {
        0x40u8
    } else {
        0u8
    }) | (if f.flash {
        0x80u8
    } else {
        0u8
    })) as u8
}

impl SpeccyColour {
    /// The palette number of this colour.
    pub fn index(&self) -> (r: u8)
        ensures
            r == colour_index(*self),
    {
        match self {
            SpeccyColour::Black => 0,
            SpeccyColour::Blue => 1,
            SpeccyColour::Red => 2,
            SpeccyColour::Magenta => 3,
            SpeccyColour::Green => 4,
            SpeccyColour::Cyan => 5,
            SpeccyColour::Yellow => 6,
            SpeccyColour::White => 7,
        }
    }
}

/// Splits an attribute byte into its fields. Every byte value is valid.
pub fn decode_attribute(a: u8) -> (r: Attribute)
    ensures
        r == attribute_spec(a),
{
    Attribute {
        ink: SpeccyColour::from_raw(a & 0x07),
        paper: SpeccyColour::from_raw((a & 0x38) >> 3),
        bright: a & 0x40 != 0,
        flash: a & 0x80 != 0,
    }
}

/// Packs attribute fields back into one byte.
pub fn encode_attribute(f: &Attribute) -> (r: u8)
    ensures
        r == encode_attribute_spec(*f),
{
    let b: u8 = if f.bright {
        0x40
    } else {
        0
    };
    let fl: u8 = if f.flash {
        0x80
    } else {
        0
    };
    let ink = f.ink.index();
    let paper = f.paper.index();
    assert(paper << 3u8 <= 0x38) by (bit_vector)
        requires
            paper <= 7,
    ;
    ink | (paper << 3) | b | fl
}

/// Re-encoding the fields that an attribute byte decodes to gives the byte back, so in
/// particular its low seven bits (ink, paper and bright) survive the round trip.
pub proof fn lemma_attribute_round_trip(a: u8)
    ensures
        encode_attribute_spec(attribute_spec(a)) == a,
        encode_attribute_spec(attribute_spec(a)) & 0x7f == a & 0x7f,
{
    let ink = a & 0x07;
    let paper = (a & 0x38) >> 3u8;
    assert(a & 0x07 <= 7 && (a & 0x38) >> 3u8 <= 7) by (bit_vector);
    assert(colour_index(colour_of(ink)) == ink);
    assert(colour_index(colour_of(paper)) == paper);
    let bright: u8 = if a & 0x40 != 0 {
        0x40
    } else {
        0
    };
    let flash: u8 = if a & 0x80 != 0 {
        0x80
    } else {
        0
    };
    assert(ink | (paper << 3u8) | bright | flash == a) by (bit_vector)
        requires
            ink == a & 0x07,
            paper == (a & 0x38) >> 3u8,
            bright == (if a & 0x40 != 0 {
                0x40u8
            } else {
                0u8
            }),
            flash == (if a & 0x80 != 0 {
                0x80u8
            } else {
                0u8
            }),
    ;
}

/// Ink colour of an attribute byte, dim or bright as its bright bit says.
pub open spec fn ink_spec(a: u8) -> Rgba {
    rgba_spec(attribute_spec(a).ink, attribute_spec(a).bright)
}

/// Paper colour of an attribute byte, dim or bright as its bright bit says.
pub open spec fn paper_spec(a: u8) -> Rgba {
    rgba_spec(attribute_spec(a).paper, attribute_spec(a).bright)
}

/// One tile material of a room.
#[derive(Clone, Copy, Debug)]
pub struct JswRawCell {
    /// The cell's slot in its room; room layouts refer to cells by it.
    pub id: u8,
    /// The encoded attribute byte that the colours come from.
    pub attribute: u8,
    pub behaviour: CellBehaviour,
    pub ink: Rgba,
    pub paper: Rgba,
    pub bright: bool,
    pub flash: bool,
    pub animated: bool,
    pub event: bool,
    /// One byte per row, most significant bit leftmost.
    pub sprite: [u8; 8],
}

impl JswRawCell {
    /// A cell whose colours and flags are decoded from `attribute`.
    pub fn new(id: u8, attribute: u8, behaviour: CellBehaviour, sprite: [u8; 8]) -> (r: Self)
        ensures
            r.id == id,
            r.attribute == attribute,
            r.behaviour == behaviour,
            r.ink == ink_spec(attribute),
            r.paper == paper_spec(attribute),
            r.bright == attribute_spec(attribute).bright,
            r.flash == attribute_spec(attribute).flash,
            !r.animated,
            !r.event,
            r.sprite == sprite,
    {
        let f = decode_attribute(attribute);
        JswRawCell {
            id,
            attribute,
            behaviour,
            ink: f.ink.to_rgba(f.bright),
            paper: f.paper.to_rgba(f.bright),
            bright: f.bright,
            flash: f.flash,
            animated: false,
            event: false,
            sprite,
        }
    }
}

/// One decoded room.
#[derive(Debug)]
pub struct JswRawRoom {
    /// Position of the room in decode order, from 0.
    pub room_no: u8,
    pub name: String,
    /// Cell ids, row-major, 32 columns by 16 rows.
    pub layout: Vec<u8>,
    pub cells: Vec<JswRawCell>,
}

/// A decoded game: its variant and its rooms in decode order.
#[derive(Debug)]
pub struct JswRawGame {
    pub game_type: GameType,
    pub rooms: Vec<JswRawRoom>,
}

/// What the decoder of variant `t` gives for the payload `window`.
pub open spec fn variant_outcome(t: GameType, window: Seq<u8>, r: Result<JswRawGame, Error>) -> bool {
    &&& r matches Ok(g) ==> g.game_type == t
    &&& match t {
        GameType::MM => crate::mm_parser::rooms_outcome(window, game_rooms(r)),
        GameType::JSW => crate::jsw_parser::rooms_outcome(window, game_rooms(r)),
        GameType::JSW2 => crate::jsw2_parser::rooms_outcome(window, game_rooms(r)),
    }
}

/// The payload that a located window covers.
pub open spec fn window_bytes(g: RawGameData) -> Seq<u8> {
    g.spec_bytes().subrange(
        g.spec_start_index() as int,
        (g.spec_start_index() + g.spec_data_length()) as int,
    )
}

/// No variant's signature validates in `bytes`.
pub open spec fn unrecognised(bytes: Seq<u8>) -> bool {
    !has_window(bytes, GameType::MM) && !has_window(bytes, GameType::JSW) && !has_window(
        bytes,
        GameType::JSW2,
    )
}

impl JswRawGame {
    pub fn new(game_type: GameType, rooms: Vec<JswRawRoom>) -> (r: Self)
        ensures
            r.game_type == game_type,
            r.rooms == rooms,
    {
        JswRawGame { game_type, rooms }
    }

    /// Decodes the payload of a located window with the decoder of its variant.
    pub fn game_buffer_to_game(game_data: &RawGameData) -> (r: Result<JswRawGame, Error>)
        ensures
            variant_outcome(game_data.spec_game_type(), window_bytes(*game_data), r),
    {
        let bytes = game_data.game_bytes();
        match game_data.game_type() {
            GameType::MM => RawMmGame::extract_game(bytes),
            GameType::JSW => RawJswGame::extract_game(bytes),
            GameType::JSW2 => RawJsw2Game::extract_game(bytes),
        }
    }

    /// Locates the game in an archive and decodes it.
    pub fn from_bytes(bytes: &[u8]) -> (r: Result<JswRawGame, Error>)
        ensures
            unrecognised(bytes@) ==> (r matches Err(e) && e == Error::GameNotRecognised),
            !unrecognised(bytes@) ==> exists|g: RawGameData|
                {
                    &&& #[trigger] window_of(g, bytes@, g.spec_game_type())
                    &&& (g.spec_game_type() == GameType::MM || !has_window(bytes@, GameType::MM))
                    &&& (g.spec_game_type() == GameType::JSW2 ==> !has_window(bytes@, GameType::JSW))
                    &&& variant_outcome(g.spec_game_type(), window_bytes(g), r)
                },
    {
        match identify_game(bytes) {
            Ok(game) => {
                let r = Self::game_buffer_to_game(&game);
                assert(window_of(game, bytes@, game.spec_game_type()));
                r
            },
            Err(e) => Err(e),
        }
    }
}

} // verus!
