use vstd::prelude::*;

verus! {

/// The `j`-th two-bit field of a byte, counting from the most significant pair.
pub open spec fn bit_pair(b: u8, j: int) -> u8 {
    if j == 0 {
        (b >> 6u8) & 3
    } else if j == 1 {
        (b >> 4u8) & 3
    } else if j == 2 {
        (b >> 2u8) & 3
    } else {
        b & 3
    }
}

/// Four cell indices per byte, most significant pair first.
pub open spec fn unpack_spec(packed: Seq<u8>) -> Seq<u8> {
    Seq::new((packed.len() * 4) as nat, |k: int| bit_pair(packed[k / 4], k % 4))
}

/// The four two-bit fields of a byte, most significant first.
pub fn unpack_byte(b: u8) -> (r: [u8; 4])
    ensures
        r@ == seq![bit_pair(b, 0), bit_pair(b, 1), bit_pair(b, 2), bit_pair(b, 3)],
{
    let r = [(b >> 6) & 3, (b >> 4) & 3, (b >> 2) & 3, b & 3];
    assert(r@ =~= seq![bit_pair(b, 0), bit_pair(b, 1), bit_pair(b, 2), bit_pair(b, 3)]);
    r
}

/// Unpacks a bit-packed room layout: each byte holds four cell indices of two bits,
/// most significant pair first.
pub fn unpack_layout(packed: &[u8]) -> (r: Vec<u8>)
    requires
        packed@.len() * 4 <= usize::MAX,
    ensures
        r@ == unpack_spec(packed@),
{
    let mut out: Vec<u8> = Vec::new();
    let mut i: usize = 0;
    while i < packed.len()
        invariant
            packed@.len() * 4 <= usize::MAX,
            i <= packed@.len(),
            out@.len() == i * 4,
            forall|k: int| 0 <= k < i * 4 ==> #[trigger] out@[k] == bit_pair(packed@[k / 4], k % 4),
        decreases packed@.len() - i,
    {
        let q = unpack_byte(packed[i]);
        let ghost before = out@;
        out.push(q[0]);
        out.push(q[1]);
        out.push(q[2]);
        out.push(q[3]);
        assert forall|k: int| 0 <= k < (i + 1) * 4 implies #[trigger] out@[k] == bit_pair(
            packed@[k / 4],
            k % 4,
        ) by {
            if k >= i * 4 {
                assert(k / 4 == i && k % 4 == k - i * 4) by (nonlinear_arith)
                    requires
                        i * 4 <= k < (i + 1) * 4,
                ;
            } else {
                assert(out@[k] == before[k]);
            }
        }
        i = i + 1;
    }
    assert(out@ =~= unpack_spec(packed@));
    out
}

} // verus!
