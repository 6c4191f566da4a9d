use vstd::prelude::*;

verus! {

/// The big-endian 32-bit value of the four bytes of `b` starting at `i`.
pub open spec fn be_u32(b: Seq<u8>, i: int) -> u32 {
    (b[i] as int * 0x1000000 + b[i + 1] as int * 0x10000 + b[i + 2] as int * 0x100
        + b[i + 3] as int) as u32
}

/// Relies on byteorder's `BigEndian::read_u32`, which reads the first four
/// bytes of the slice it is given as a big-endian `u32` (it panics on fewer).
#[verifier::external_body]
pub(crate) fn read_u32_at(b: &[u8], pos: usize) -> (r: u32)
    requires
        pos + 4 <= b@.len(),
    ensures
        r == be_u32(b@, pos as int),
{
    <byteorder::BigEndian as byteorder::ByteOrder>::read_u32(&b[pos..])
}

/// The text that a byte sequence spells in UTF-8, or `None` where the bytes
/// are not valid UTF-8.
pub uninterp spec fn utf8_text(b: Seq<u8>) -> Option<Seq<char>>;

/// Relies on `String::from_utf8`: it succeeds exactly on valid UTF-8, with a
/// result that depends on the bytes alone.
#[verifier::external_body]
pub(crate) fn decode_utf8(b: Vec<u8>) -> (r: Option<String>)
    ensures
        match r {
            Some(s) => utf8_text(b@) == Some(s@),
            None => utf8_text(b@) is None,
        },
{
    String::from_utf8(b).ok()
}

} // verus!
