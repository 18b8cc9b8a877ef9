use vstd::prelude::*;

use crate::error::Error;

verus! {

/// The three game variants that the library decodes.
#[derive(Clone, Copy, Debug, PartialEq, Eq, Structural)]
pub enum GameType {
    /// The earliest game: a simple fixed room table.
    MM,
    /// The second game: bit-packed layouts with per-room metadata.
    JSW,
    /// The third game: pointer-indirected rooms and compressed names.
    JSW2,
}

pub const MM_SIGNATURE_OFFSET: usize = 0x0FF4;
pub const MM_GAME_LENGTH: usize = 0x7FFF;
pub const JSW_SIGNATURE_OFFSET: usize = 0x1456;
pub const JSW_GAME_LENGTH: usize = 0x7FFF;
pub const JSW2_SIGNATURE_OFFSET: usize = 0x1470;
pub const JSW2_GAME_LENGTH: usize = 0xA3FF;

/// The code fragment shared by the first two games; each of them follows it with one
/// more byte of its own.
pub open spec fn shared_signature_prefix() -> Seq<u8> {
    seq![
        0x06u8, 0x10, 0xCB, 0x41, 0x1A, 0x28, 0x04, 0xA6, 0xC0, 0x1A, 0xB6, 0x77, 0x2C, 0x13,
        0xCB, 0x41, 0x1A, 0x28, 0x04, 0xA6, 0xC0, 0x1A, 0xB6, 0x77, 0x2D, 0x24, 0x13, 0x7C,
        0xE6, 0x07, 0x20, 0x10, 0x7C, 0xD6, 0x08, 0x67, 0x7D, 0xC6, 0x20, 0x6F, 0xE6, 0xE0,
        0x20, 0x04, 0x7C, 0xC6, 0x08, 0x67, 0x10, 0xD0, 0xAF, 0xC9, 0x3A,
    ]
}

/// The byte pattern that identifies each game.
pub open spec fn signature_spec(t: GameType) -> Seq<u8> {
    match t {
        GameType::MM => shared_signature_prefix().push(0x07),
        GameType::JSW => shared_signature_prefix().push(0xE9),
        GameType::JSW2 => seq![
            0x00u8, 0x70, 0x00, 0x68, 0x01, 0x61, 0xD6, 0x81, 0xD6, 0xD0, 0x00, 0x1C, 0x07,
            0x00, 0x00, 0x00, 0x00, 0x00, 0x00, 0x00, 0x00, 0x00, 0x00, 0x00, 0x00, 0xC0,
            0x50, 0xC0, 0x51, 0xC0, 0x52, 0xC0, 0x53, 0xC0, 0x54, 0xC0, 0x55, 0xC0, 0x56,
            0xC0, 0x57, 0xE0, 0x50, 0xE0, 0x51, 0xE0, 0x52, 0xE0, 0x53, 0xE0, 0x54, 0xE0,
            0x55, 0xE0,
        ],
    }
}

/// How far into the payload the signature of each game starts.
pub open spec fn signature_offset_spec(t: GameType) -> usize {
    match t {
        GameType::MM => MM_SIGNATURE_OFFSET,
        GameType::JSW => JSW_SIGNATURE_OFFSET,
        GameType::JSW2 => JSW2_SIGNATURE_OFFSET,
    }
}

/// The payload length of each game.
pub open spec fn game_length_spec(t: GameType) -> usize {
    match t {
        GameType::MM => MM_GAME_LENGTH,
        GameType::JSW => JSW_GAME_LENGTH,
        GameType::JSW2 => JSW2_GAME_LENGTH,
    }
}

/// The signature of a game.
pub fn signature(t: GameType) -> (r: Vec<u8>)
    ensures
        r@ == signature_spec(t),
{
    let mut v: Vec<u8> = match t {
        GameType::JSW2 => vec![
            0x00u8, 0x70, 0x00, 0x68, 0x01, 0x61, 0xD6, 0x81, 0xD6, 0xD0, 0x00, 0x1C, 0x07,
            0x00, 0x00, 0x00, 0x00, 0x00, 0x00, 0x00, 0x00, 0x00, 0x00, 0x00, 0x00, 0xC0,
            0x50, 0xC0, 0x51, 0xC0, 0x52, 0xC0, 0x53, 0xC0, 0x54, 0xC0, 0x55, 0xC0, 0x56,
            0xC0, 0x57, 0xE0, 0x50, 0xE0, 0x51, 0xE0, 0x52, 0xE0, 0x53, 0xE0, 0x54, 0xE0,
            0x55, 0xE0,
        ],
        _ => vec![
            0x06u8, 0x10, 0xCB, 0x41, 0x1A, 0x28, 0x04, 0xA6, 0xC0, 0x1A, 0xB6, 0x77, 0x2C, 0x13,
            0xCB, 0x41, 0x1A, 0x28, 0x04, 0xA6, 0xC0, 0x1A, 0xB6, 0x77, 0x2D, 0x24, 0x13, 0x7C,
            0xE6, 0x07, 0x20, 0x10, 0x7C, 0xD6, 0x08, 0x67, 0x7D, 0xC6, 0x20, 0x6F, 0xE6, 0xE0,
            0x20, 0x04, 0x7C, 0xC6, 0x08, 0x67, 0x10, 0xD0, 0xAF, 0xC9, 0x3A,
        ],
    };
    match t {
        GameType::MM => v.push(0x07),
        GameType::JSW => v.push(0xE9),
        GameType::JSW2 => {},
    }
    assert(v@ =~= signature_spec(t));
    v
}

/// The signature `sig` occurs in `bytes` starting at `p`.
pub open spec fn matches_at(bytes: Seq<u8>, sig: Seq<u8>, p: int) -> bool {
    0 <= p && p + sig.len() <= bytes.len() && bytes.subrange(p, p + sig.len()) == sig
}

/// The signature of `t` occurs at `p`, far enough in for the payload to start before it,
/// and the archive holds the whole payload from there.
pub open spec fn window_valid_at(bytes: Seq<u8>, t: GameType, p: int) -> bool {
    &&& matches_at(bytes, signature_spec(t), p)
    &&& p >= signature_offset_spec(t)
    &&& p - signature_offset_spec(t) + game_length_spec(t) <= bytes.len()
}

/// `p` is the first position at which `t` has a valid window.
pub open spec fn first_window_at(bytes: Seq<u8>, t: GameType, p: int) -> bool {
    window_valid_at(bytes, t, p) && forall|q: int| 0 <= q < p ==> !window_valid_at(bytes, t, q)
}

/// Some position gives `t` a valid window.
pub open spec fn has_window(bytes: Seq<u8>, t: GameType) -> bool {
    exists|p: int| window_valid_at(bytes, t, p)
}

/// Whether `sig` occurs in `bytes` at `p`.
pub fn signature_at(bytes: &[u8], sig: &[u8], p: usize) -> (r: bool)
    ensures
        r == matches_at(bytes@, sig@, p as int),
{
    let n = bytes.len();
    let m = sig.len();
    if p > n || m > n - p {
        return false;
    }
    let mut j: usize = 0;
    while j < m
        invariant
            n == bytes@.len(),
            m == sig@.len(),
            p + m <= n,
            j <= m,
            forall|k: int| 0 <= k < j ==> bytes@[p + k] == sig@[k],
        decreases m - j,
    {
        if bytes[p + j] != sig[j] {
            assert(bytes@.subrange(p as int, p + m)[j as int] != sig@[j as int]);
            return false;
        }
        j = j + 1;
    }
    assert(bytes@.subrange(p as int, p + m) =~= sig@);
    true
}

/// The first position at which `t` has a valid window, or `None` when it has none.
///
/// A match too close to the start of the archive, or too close to its end to hold the
/// whole payload, is passed over and the search goes on.
pub fn find_window(bytes: &[u8], t: GameType) -> (r: Option<usize>)
    ensures
        r matches Some(p) ==> first_window_at(bytes@, t, p as int),
        r is None ==> !has_window(bytes@, t),
{
    let sig = signature(t);
    let offset: usize = match t {
        GameType::MM => MM_SIGNATURE_OFFSET,
        GameType::JSW => JSW_SIGNATURE_OFFSET,
        GameType::JSW2 => JSW2_SIGNATURE_OFFSET,
    };
    let length: usize = match t {
        GameType::MM => MM_GAME_LENGTH,
        GameType::JSW => JSW_GAME_LENGTH,
        GameType::JSW2 => JSW2_GAME_LENGTH,
    };
    let n = bytes.len();
    let mut p: usize = 0;
    while p < n
        invariant
            n == bytes@.len(),
            sig@ == signature_spec(t),
            offset == signature_offset_spec(t),
            length == game_length_spec(t),
            forall|q: int| 0 <= q < p ==> !window_valid_at(bytes@, t, q),
        decreases n - p,
    {
        if signature_at(bytes, sig.as_slice(), p) && p >= offset && length <= n - (p - offset) {
            return Some(p);
        }
        p = p + 1;
    }
    assert forall|q: int| window_valid_at(bytes@, t, q) implies false by {
        assert(!window_valid_at(bytes@, t, q) || q < p);
    }
    None
}

/// A payload window located in an archive.
pub struct RawGameData<'a> {
    game_type: GameType,
    bytes: &'a [u8],
    start_index: usize,
    data_length: usize,
}

impl<'a> RawGameData<'a> {
    #[verifier::type_invariant]
    spec fn inv(self) -> bool {
        self.start_index + self.data_length <= self.bytes@.len() <= usize::MAX
    }

    /// The variant whose signature was found.
    pub closed spec fn spec_game_type(&self) -> GameType {
        self.game_type
    }

    /// The archive that the window lies in.
    pub closed spec fn spec_bytes(&self) -> Seq<u8> {
        self.bytes@
    }

    /// Where the payload starts in the archive.
    pub closed spec fn spec_start_index(&self) -> nat {
        self.start_index as nat
    }

    /// How many bytes the payload has.
    pub closed spec fn spec_data_length(&self) -> nat {
        self.data_length as nat
    }

    /// The variant whose signature was found.
    pub fn game_type(&self) -> (r: &GameType)
        ensures
            *r == self.spec_game_type(),
    {
        &self.game_type
    }

    /// Where the payload starts in the archive.
    pub fn start_index(&self) -> (r: usize)
        ensures
            r == self.spec_start_index(),
    {
        self.start_index
    }

    /// Where the payload ends in the archive.
    pub fn game_length(&self) -> (r: usize)
        ensures
            r == self.spec_start_index() + self.spec_data_length(),
            r <= self.spec_bytes().len(),
    {
        proof {
            use_type_invariant(self);
        }
        self.start_index + self.data_length
    }

    /// The payload bytes.
    pub fn game_bytes(&self) -> (r: &'a [u8])
        ensures
            r@ == self.spec_bytes().subrange(
                self.spec_start_index() as int,
                (self.spec_start_index() + self.spec_data_length()) as int,
            ),
    {
        proof {
            use_type_invariant(self);
        }
        &self.bytes[self.start_index..self.start_index + self.data_length]
    }
}

/// The window that `t` gives at position `p`.
pub open spec fn window_of(g: RawGameData, bytes: Seq<u8>, t: GameType) -> bool {
    &&& g.spec_game_type() == t
    &&& g.spec_bytes() == bytes
    &&& g.spec_data_length() == game_length_spec(t)
    &&& first_window_at(bytes, t, g.spec_start_index() + signature_offset_spec(t))
}

/// What locating the payload in `bytes` gives: the window of the first variant, in the
/// fixed order, whose signature validates somewhere; else `GameNotRecognised`.
pub open spec fn identified(bytes: Seq<u8>, r: Result<RawGameData, Error>) -> bool {
    &&& r matches Ok(g) ==> {
        ||| window_of(g, bytes, GameType::MM)
        ||| !has_window(bytes, GameType::MM) && window_of(g, bytes, GameType::JSW)
        ||| !has_window(bytes, GameType::MM) && !has_window(bytes, GameType::JSW) && window_of(
            g,
            bytes,
            GameType::JSW2,
        )
    }
    &&& r is Err <==> !has_window(bytes, GameType::MM) && !has_window(bytes, GameType::JSW)
        && !has_window(bytes, GameType::JSW2)
    &&& r matches Err(e) ==> e == Error::GameNotRecognised
}

/// Locates the game payload in an archive, trying the variants in a fixed order.
pub fn identify_game<'a>(bytes: &'a [u8]) -> (r: Result<RawGameData<'a>, Error>)
    ensures
        identified(bytes@, r),
{
    let n = bytes.len();
    let order: [GameType; 3] = [GameType::MM, GameType::JSW, GameType::JSW2];
    let mut k: usize = 0;
    while k < 3
        invariant
            order@ == seq![GameType::MM, GameType::JSW, GameType::JSW2],
            n == bytes@.len(),
            k <= 3,
            forall|j: int| 0 <= j < k ==> !has_window(bytes@, #[trigger] order@[j]),
        decreases 3 - k,
    {
        let t = order[k];
        match find_window(bytes, t) {
            Some(p) => {
                let offset: usize = match t {
                    GameType::MM => MM_SIGNATURE_OFFSET,
                    GameType::JSW => JSW_SIGNATURE_OFFSET,
                    GameType::JSW2 => JSW2_SIGNATURE_OFFSET,
                };
                let length: usize = match t {
                    GameType::MM => MM_GAME_LENGTH,
                    GameType::JSW => JSW_GAME_LENGTH,
                    GameType::JSW2 => JSW2_GAME_LENGTH,
                };
                assert(k == 1 ==> !has_window(bytes@, order@[0]));
                assert(k == 2 ==> !has_window(bytes@, order@[0]) && !has_window(bytes@, order@[1]));
                return Ok(RawGameData { game_type: t, bytes, start_index: p - offset, data_length: length });
            },
            None => {},
        }
        k = k + 1;
    }
    assert(!has_window(bytes@, order@[0]) && !has_window(bytes@, order@[1]) && !has_window(bytes@, order@[2]));
    Err(Error::GameNotRecognised)
}

/// The first valid window of a variant is unique.
proof fn lemma_first_window_unique(bytes: Seq<u8>, t: GameType, p: int, q: int)
    requires
        first_window_at(bytes, t, p),
        first_window_at(bytes, t, q),
    ensures
        p == q,
{
    if p < q {
        assert(!window_valid_at(bytes, t, p));
    } else if q < p {
        assert(!window_valid_at(bytes, t, q));
    }
}

/// An archive whose first valid signature window belongs to variant `t` at position `p`,
/// with no window of a variant tried before `t`, is identified as `t` with the payload
/// starting `p - offset` bytes in.
pub proof fn lemma_identifies_window(bytes: Seq<u8>, t: GameType, p: int, r: Result<RawGameData, Error>)
    requires
        first_window_at(bytes, t, p),
        t != GameType::MM ==> !has_window(bytes, GameType::MM),
        t == GameType::JSW2 ==> !has_window(bytes, GameType::JSW),
        identified(bytes, r),
    ensures
        r matches Ok(g) && g.spec_game_type() == t && g.spec_start_index() == p
            - signature_offset_spec(t) && g.spec_data_length() == game_length_spec(t),
{
    assert(has_window(bytes, t));
    let g = r->Ok_0;
    if g.spec_game_type() == t {
        lemma_first_window_unique(bytes, t, p, g.spec_start_index() + signature_offset_spec(t));
    } else {
        let u = g.spec_game_type();
        assert(window_valid_at(bytes, u, g.spec_start_index() + signature_offset_spec(u)));
    }
}

/// A signature occurrence closer to the start of the archive than its payload offset is
/// never taken as a match, so the scan goes past it.
pub proof fn lemma_early_signature_ignored(bytes: Seq<u8>, t: GameType, p: int)
    requires
        0 <= p < signature_offset_spec(t),
    ensures
        !window_valid_at(bytes, t, p),
        forall|g: RawGameData| #[trigger] window_of(g, bytes, t) ==> g.spec_start_index()
            + signature_offset_spec(t) != p,
{
}

} // verus!
