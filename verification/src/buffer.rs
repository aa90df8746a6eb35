//! The growable byte buffer of the `bytes` crate, as framing uses it.

use vstd::prelude::*;

use bytes::BufMut;
use bytes::BytesMut;

verus! {

#[verifier::external_type_specification]
#[verifier::external_body]
pub struct ExBytesMut(bytes::BytesMut);

/// The bytes a `BytesMut` holds, in order.
pub uninterp spec fn bytes_mut_contents(b: BytesMut) -> Seq<u8>;

/// The four bytes of `n`, least significant first.
pub open spec fn le_bytes_u32(n: u32) -> Seq<u8> {
    seq![
        (n % 256) as u8,
        ((n / 256) % 256) as u8,
        ((n / 65536) % 256) as u8,
        ((n / 16777216) % 256) as u8,
    ]
}

/// `BytesMut::with_capacity`: an empty buffer (with room reserved for
/// `capacity` bytes, which Vec-backed storage limits to `isize::MAX`).
#[verifier::external_body]
pub(crate) fn bytes_with_capacity(capacity: usize) -> (b: BytesMut)
    requires
        capacity <= isize::MAX,
    ensures
        bytes_mut_contents(b) == Seq::<u8>::empty(),
{
    BytesMut::with_capacity(capacity)
}

/// `BufMut::put_u32_le` on a `BytesMut`: appends the little-endian bytes
/// of `n`; the buffer grows as needed, up to `isize::MAX` bytes.
#[verifier::external_body]
pub(crate) fn bytes_put_u32_le(b: &mut BytesMut, n: u32)
    requires
        bytes_mut_contents(*old(b)).len() + 4 <= isize::MAX,
    ensures
        bytes_mut_contents(*final(b)) == bytes_mut_contents(*old(b)) + le_bytes_u32(n),
{
    b.put_u32_le(n);
}

/// `BytesMut::extend_from_slice`: appends `data`; the buffer grows as
/// needed, up to `isize::MAX` bytes.
#[verifier::external_body]
pub(crate) fn bytes_extend_from_slice(b: &mut BytesMut, data: &[u8])
    requires
        bytes_mut_contents(*old(b)).len() + data@.len() <= isize::MAX,
    ensures
        bytes_mut_contents(*final(b)) == bytes_mut_contents(*old(b)) + data@,
{
    b.extend_from_slice(data);
}

} // verus!
