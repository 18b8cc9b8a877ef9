use vstd::prelude::*;

use crate::error::Error;

verus! {

/// Where the shared word dictionary starts in the third game's payload.
pub const TEXT_COMPRESSION_TABLE_OFFSET: usize = 0x9E81;

/// How deeply dictionary words may refer to further words before the text is taken as
/// corrupt.
pub const MAX_TEXT_DEPTH: u32 = 8;

/// A byte with its high bit set ends a token.
pub open spec fn is_last_byte(b: u8) -> bool {
    b >= 0x80
}

/// A byte without its end marker.
pub open spec fn strip_high(b: u8) -> u8 {
    (b % 0x80) as u8
}

/// Start of word `n` of the dictionary that begins at `pos`: the position right after
/// the `n`-th end-marked byte, or `None` when the payload ends first.
pub open spec fn word_start(data: Seq<u8>, pos: int, n: nat) -> Option<int>
    decreases data.len() - pos, n,
{
    if n == 0 {
        Some(pos)
    } else if pos < 0 || pos >= data.len() {
        None
    } else if is_last_byte(data[pos]) {
        word_start(data, pos + 1, (n - 1) as nat)
    } else {
        word_start(data, pos + 1, n)
    }
}

/// What one byte contributes: a dictionary word and a space, a printable character, or
/// nothing.
pub open spec fn token_piece(data: Seq<u8>, pos: int, depth: nat) -> Result<Seq<u8>, Error>
    decreases depth, data.len() - pos, 0int,
{
    if pos < 0 || pos >= data.len() {
        Err(Error::ReadPastEnd { position: pos as usize })
    } else {
        let byte = data[pos];
        let b = strip_high(byte);
        if !is_last_byte(byte) && b <= 31 {
            if depth == 0 {
                Err(Error::TextTooDeep { position: pos as usize })
            } else {
                match word_start(data, TEXT_COMPRESSION_TABLE_OFFSET as int, b as nat) {
                    None => Err(Error::ReadPastEnd { position: data.len() as usize }),
                    Some(ws) => match decode_run(data, ws, (depth - 1) as nat, seq![]) {
                        Ok(s) => Ok(
                            if s.len() > 0 {
                                s.push(0x20u8)
                            } else {
                                s
                            },
                        ),
                        Err(e) => Err(e),
                    },
                }
            }
        } else if 0x20 <= b <= 0x7e {
            Ok(seq![b])
        } else {
            Ok(seq![])
        }
    }
}

/// The text of the token stream at `pos`, appended to `acc`: bytes are read up to and
/// including the first end-marked one.
pub open spec fn decode_run(data: Seq<u8>, pos: int, depth: nat, acc: Seq<u8>) -> Result<
    Seq<u8>,
    Error,
>
    decreases depth, data.len() - pos, 1int,
{
    if pos < 0 || pos >= data.len() {
        Err(Error::ReadPastEnd { position: pos as usize })
    } else {
        match token_piece(data, pos, depth) {
            Err(e) => Err(e),
            Ok(s) => if is_last_byte(data[pos]) {
                Ok(acc + s)
            } else {
                decode_run(data, pos + 1, depth, acc + s)
            },
        }
    }
}

/// A text without its trailing spaces.
pub open spec fn trim_trailing_spaces(s: Seq<u8>) -> Seq<u8>
    decreases s.len(),
{
    if s.len() > 0 && s.last() == 0x20 {
        trim_trailing_spaces(s.drop_last())
    } else {
        s
    }
}

/// The room name that starts at `pos`: the decoded token stream without trailing spaces.
pub open spec fn compressed_text(data: Seq<u8>, pos: int) -> Result<Seq<u8>, Error> {
    match decode_run(data, pos, MAX_TEXT_DEPTH as nat, seq![]) {
        Ok(s) => Ok(trim_trailing_spaces(s)),
        Err(e) => Err(e),
    }
}

/// A decode result with the bytes seen as a sequence.
pub open spec fn bytes_result(r: Result<Vec<u8>, Error>) -> Result<Seq<u8>, Error> {
    match r {
        Ok(v) => Ok(v@),
        Err(e) => Err(e),
    }
}

/// Start of dictionary word `n`.
fn find_word_start(data: &[u8], n: u8) -> (r: Result<usize, Error>)
    ensures
        r matches Ok(x) ==> word_start(data@, TEXT_COMPRESSION_TABLE_OFFSET as int, n as nat)
            == Some(x as int),
        r is Err ==> word_start(data@, TEXT_COMPRESSION_TABLE_OFFSET as int, n as nat) is None
            && r == Err::<usize, Error>(Error::ReadPastEnd { position: data@.len() as usize }),
{
    let len = data.len();
    let mut pos: usize = TEXT_COMPRESSION_TABLE_OFFSET;
    let mut remaining: u8 = n;
    if remaining == 0 {
        return Ok(pos);
    }
    if pos >= len {
        return Err(Error::ReadPastEnd { position: len });
    }
    while remaining > 0
        invariant
            len == data@.len(),
            pos <= len,
            word_start(data@, pos as int, remaining as nat) == word_start(
                data@,
                TEXT_COMPRESSION_TABLE_OFFSET as int,
                n as nat,
            ),
        decreases len - pos,
    {
        if pos >= len {
            return Err(Error::ReadPastEnd { position: len });
        }
        if data[pos] >= 0x80 {
            remaining = remaining - 1;
        }
        pos = pos + 1;
    }
    Ok(pos)
}

/// Decodes the token stream at `pos`, following dictionary references at most `depth`
/// levels deep.
fn decode_token_run(data: &[u8], pos: usize, depth: u32) -> (r: Result<Vec<u8>, Error>)
    ensures
        bytes_result(r) == decode_run(data@, pos as int, depth as nat, seq![]),
    decreases depth,
{
    let len = data.len();
    if pos >= len {
        return Err(Error::ReadPastEnd { position: pos });
    }
    let mut p: usize = pos;
    let mut out: Vec<u8> = Vec::new();
    loop
        invariant
            len == data@.len(),
            pos <= p <= len,
            decode_run(data@, p as int, depth as nat, out@) == decode_run(
                data@,
                pos as int,
                depth as nat,
                seq![],
            ),
        decreases len - p,
    {
        if p >= len {
            return Err(Error::ReadPastEnd { position: p });
        }
        let byte = data[p];
        let last = byte >= 0x80;
        let b: u8 = byte % 0x80;
        let ghost before = out@;
        if !last && b <= 31 {
            if depth == 0 {
                return Err(Error::TextTooDeep { position: p });
            }
            let ws = match find_word_start(data, b) {
                Ok(ws) => ws,
                Err(e) => {
                    assert(token_piece(data@, p as int, depth as nat) == Err::<Seq<u8>, Error>(e));
                    return Err(e);
                },
            };
            let mut word = match decode_token_run(data, ws, depth - 1) {
                Ok(w) => w,
                Err(e) => {
                    assert(token_piece(data@, p as int, depth as nat) == Err::<Seq<u8>, Error>(e));
                    return Err(e);
                },
            };
            let ghost w = word@;
            if word.len() > 0 {
                out.append(&mut word);
                out.push(0x20);
                assert(token_piece(data@, p as int, depth as nat) == Ok::<Seq<u8>, Error>(w.push(0x20u8)));
                assert(out@ =~= before + w.push(0x20u8));
            } else {
                assert(token_piece(data@, p as int, depth as nat) == Ok::<Seq<u8>, Error>(w));
                assert(out@ =~= before + w);
            }
        } else if 0x20 <= b && b <= 0x7e {
            out.push(b);
            assert(token_piece(data@, p as int, depth as nat) == Ok::<Seq<u8>, Error>(seq![b]));
            assert(out@ =~= before + seq![b]);
        } else {
            assert(token_piece(data@, p as int, depth as nat) == Ok::<Seq<u8>, Error>(seq![]));
            assert(out@ =~= before + seq![]);
        }
        if last {
            return Ok(out);
        }
        p = p + 1;
    }
}

/// Removes trailing spaces.
fn trim_trailing(v: &mut Vec<u8>)
    ensures
        final(v)@ == trim_trailing_spaces(old(v)@),
{
    let mut end: usize = v.len();
    assert(v@.subrange(0, end as int) =~= v@);
    while end > 0 && v[end - 1] == 0x20
        invariant
            end <= v@.len(),
            trim_trailing_spaces(v@.subrange(0, end as int)) == trim_trailing_spaces(v@),
        decreases end,
    {
        assert(v@.subrange(0, end as int).drop_last() =~= v@.subrange(0, end - 1));
        end = end - 1;
    }
    v.truncate(end);
    assert(v@ =~= old(v)@.subrange(0, end as int));
}

/// Decodes the compressed text at `pos`: each byte is a printable character, a reference
/// to a dictionary word (followed by a space in the output), or ignored; the byte with
/// its high bit set is the last one. Trailing spaces are dropped.
pub fn read_compressed_text(data: &[u8], pos: usize) -> (r: Result<Vec<u8>, Error>)
    ensures
        bytes_result(r) == compressed_text(data@, pos as int),
{
    match decode_token_run(data, pos, MAX_TEXT_DEPTH) {
        Ok(mut v) => {
            trim_trailing(&mut v);
            Ok(v)
        },
        Err(e) => Err(e),
    }
}

} // verus!
