use vstd::prelude::*;
use vstd::utf8::{decode_utf8, valid_utf8};

use crate::error::Error;

verus! {

/// Big-endian value of two bytes.
pub open spec fn u16_be(hi: u8, lo: u8) -> u16 {
    (hi as int * 256 + lo as int) as u16
}

/// The big-endian 16-bit word at `pos`, or an error naming the first byte that lies
/// outside `data`.
pub fn read_u16(data: &[u8], pos: usize) -> (r: Result<u16, Error>)
    ensures
        pos < data@.len() && pos + 1 < data@.len() ==> r == Ok::<u16, Error>(
            u16_be(data@[pos as int], data@[pos + 1]),
        ),
        pos >= data@.len() ==> r == Err::<u16, Error>(Error::ReadPastEnd { position: pos }),
        pos < data@.len() && pos + 1 >= data@.len() ==> r == Err::<u16, Error>(
            Error::ReadPastEnd { position: (pos + 1) as usize },
        ),
{
    if pos >= data.len() {
        return Err(Error::ReadPastEnd { position: pos });
    }
    if pos + 1 >= data.len() {
        return Err(Error::ReadPastEnd { position: pos + 1 });
    }
    let hi = data[pos];
    let lo = data[pos + 1];
    Ok(hi as u16 * 256 + lo as u16)
}

/// A copy of `data[pos..pos + len]`.
pub fn copy_bytes(data: &[u8], pos: usize, len: usize) -> (r: Vec<u8>)
    requires
        pos + len <= data@.len(),
    ensures
        r@ == data@.subrange(pos as int, pos + len),
{
    let mut out: Vec<u8> = Vec::new();
    let n = data.len();
    let mut i: usize = 0;
    while i < len
        invariant
            n == data@.len(),
            pos + len <= data@.len(),
            i <= len,
            out@ == data@.subrange(pos as int, pos + i),
        decreases len - i,
    {
        out.push(data[pos + i]);
        i = i + 1;
        assert(out@ =~= data@.subrange(pos as int, pos + i));
    }
    out
}

/// What `str::trim` leaves of a text.
pub uninterp spec fn trim_of(s: Seq<char>) -> Seq<char>;

/// Relies on `String::from_utf8`: it accepts exactly the valid UTF-8 byte sequences and
/// decodes them.
#[verifier::external_body]
fn string_from_utf8(bytes: Vec<u8>) -> (r: Option<String>)
    ensures
        r.is_some() <==> valid_utf8(bytes@),
        r matches Some(s) ==> s@ == decode_utf8(bytes@),
{
    String::from_utf8(bytes).ok()
}

/// Relies on `str::trim`: leading and trailing whitespace removed.
#[verifier::external_body]
fn trim_str(s: &str) -> (r: String)
    ensures
        r@ == trim_of(s@),
{
    s.trim().to_string()
}

/// The text that a run of bytes holds, when it is valid UTF-8.
pub open spec fn text_of(raw: Seq<u8>) -> Option<Seq<char>> {
    if valid_utf8(raw) {
        Some(decode_utf8(raw))
    } else {
        None
    }
}

/// The bytes as a `String`, or `None` when they are not valid UTF-8.
pub fn bytes_to_string(bytes: Vec<u8>) -> (r: Option<String>)
    ensures
        r.is_some() <==> text_of(bytes@).is_some(),
        r matches Some(s) ==> s@ == text_of(bytes@).unwrap(),
{
    string_from_utf8(bytes)
}

/// The `len` bytes at `pos` decoded as UTF-8.
pub fn read_string(data: &[u8], pos: usize, len: usize) -> (r: Result<String, Error>)
    ensures
        pos + len > data@.len() ==> r == Err::<String, Error>(
            Error::ReadPastEnd { position: data@.len() as usize },
        ),
        pos + len <= data@.len() ==> match text_of(data@.subrange(pos as int, pos + len)) {
            Some(t) => r matches Ok(s) && s@ == t,
            None => r == Err::<String, Error>(Error::InvalidUtf8 { position: pos }),
        },
{
    let n = data.len();
    if pos > n || len > n - pos {
        return Err(Error::ReadPastEnd { position: n });
    }
    let raw = copy_bytes(data, pos, len);
    match bytes_to_string(raw) {
        Some(s) => Ok(s),
        None => Err(Error::InvalidUtf8 { position: pos }),
    }
}

/// The fixed-length name field of `len` bytes at `pos`, decoded as UTF-8 and with
/// surrounding whitespace removed.
pub fn read_trimmed_string(data: &[u8], pos: usize, len: usize) -> (r: Result<String, Error>)
    requires
        pos + len <= data@.len(),
    ensures
        text_of(data@.subrange(pos as int, pos + len)) matches Some(t) ==> (r matches Ok(s)
            && s@ == trim_of(t)),
        text_of(data@.subrange(pos as int, pos + len)) is None ==> r == Err::<String, Error>(
            Error::InvalidUtf8 { position: pos },
        ),
{
    match read_string(data, pos, len) {
        Ok(s) => Ok(trim_str(s.as_str())),
        Err(e) => Err(e),
    }
}

} // verus!
