use vstd::prelude::*;
use crate::byteseq::{read_u16_at, u16_at};

verus! {

/// What `String::from_utf8_lossy` makes of a byte sequence.
pub uninterp spec fn utf8_lossy_of(b: Seq<u8>) -> Seq<char>;

/// What `String::from_utf16_lossy` makes of a sequence of UTF-16 units.
pub uninterp spec fn utf16_lossy_of(u: Seq<u16>) -> Seq<char>;

/// Relies on `String::from_utf8_lossy`: decodes UTF-8, replacing invalid
/// sequences; the result depends on the bytes alone.
#[verifier::external_body]
pub(crate) fn decode_utf8_lossy(b: &[u8]) -> (r: String)
    ensures
        r@ == utf8_lossy_of(b@),
{
    String::from_utf8_lossy(b).into_owned()
}

/// Relies on `String::from_utf16_lossy`: decodes UTF-16, replacing invalid
/// units; the result depends on the units alone.
#[verifier::external_body]
pub(crate) fn decode_utf16_lossy(u: &[u16]) -> (r: String)
    ensures
        r@ == utf16_lossy_of(u@),
{
    String::from_utf16_lossy(u)
}

/// The little-endian 16-bit units of `b`, a trailing odd byte left out.
pub open spec fn le_units(b: Seq<u8>) -> Seq<u16> {
    Seq::new(b.len() / 2, |i: int| u16_at(b, 2 * i))
}

/// Splits `b` into little-endian 16-bit units.
pub fn to_units(b: &[u8]) -> (r: Vec<u16>)
    ensures
        r@ == le_units(b@),
{
    let mut r: Vec<u16> = Vec::new();
    let len = b.len();
    let n = len / 2;
    let mut i: usize = 0;
    while i < n
        invariant
            len == b@.len(),
            n == b@.len() / 2,
            i <= n,
            r@ == le_units(b@).subrange(0, i as int),
        decreases n - i,
    {
        r.push(read_u16_at(b, 2 * i));
        i = i + 1;
        assert(r@ =~= le_units(b@).subrange(0, i as int));
    }
    assert(r@ =~= le_units(b@));
    r
}

} // verus!
