use vstd::prelude::*;

verus! {

/// Why a room could not be converted.
#[derive(Debug)]
pub enum GameConversionError {
    RoomConversionFailed { room: String },
}

/// Everything that can stop decoding or conversion.
#[derive(Debug)]
pub enum Error {
    /// A free-form message.
    Custom(String),
    /// A write at `index` into a buffer of `length` elements.
    IndexOutOfBounds { index: usize, length: usize },
    /// No known signature was found in the input.
    GameNotRecognised,
    /// A room could not be converted into map layers.
    GameConversionFailed { mode: GameConversionError, message: String },
    /// A read at `position` fell outside the payload.
    ReadPastEnd { position: usize },
    /// The fixed-length text at `position` is not valid UTF-8.
    InvalidUtf8 { position: usize },
    /// A stored address lies below the memory base that the payload starts at.
    InvalidAddress { address: u16 },
    /// Dictionary references in the text at `position` nest deeper than any well-formed
    /// payload does (a cycle in the dictionary).
    TextTooDeep { position: usize },
}

} // verus!
