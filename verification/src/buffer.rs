//! The buffers of the bytes crate, as far as this crate handles them.
//!
//! `BytesMut` and `Bytes` are opaque to the verifier. What a buffer holds is
//! named by `buffer_bytes` and `chunk_bytes`; the contracts below say what
//! the bytes crate does to them, and are believed, not proved.

use vstd::prelude::*;

verus! {

/// A buffer of bytes that can grow and shrink.
#[verifier::external_type_specification]
#[verifier::external_body]
pub struct ExBytesMut(bytes::BytesMut);

/// A buffer of bytes that no longer changes.
#[verifier::external_type_specification]
#[verifier::external_body]
pub struct ExBytes(bytes::Bytes);

/// The bytes that a growable buffer holds, in order.
pub uninterp spec fn buffer_bytes(buffer: bytes::BytesMut) -> Seq<u8>;

/// The bytes that a frozen buffer holds, in order.
pub uninterp spec fn chunk_bytes(chunk: bytes::Bytes) -> Seq<u8>;

/// `n` bytes, each of them `value`.
pub open spec fn filled(n: nat, value: u8) -> Seq<u8> {
    Seq::new(n, |i: int| value)
}

/// A new buffer holds nothing, whatever room it has. A capacity over
/// `isize::MAX` is left out: the allocation behind it would panic.
pub assume_specification[ bytes::BytesMut::with_capacity ](capacity: usize) -> (buffer:
    bytes::BytesMut)
    requires
        capacity <= isize::MAX,
    ensures
        buffer_bytes(buffer) == Seq::<u8>::empty(),
;

/// The number of bytes that a buffer holds.
pub assume_specification[ bytes::BytesMut::len ](buffer: &bytes::BytesMut) -> (len: usize)
    ensures
        len == buffer_bytes(*buffer).len(),
;

/// Resizing to a shorter length keeps the first `new_len` bytes; resizing to
/// a longer one adds bytes of `value` at the end. A length over
/// `isize::MAX` is left out: the allocation behind it would panic.
pub assume_specification[ bytes::BytesMut::resize ](
    buffer: &mut bytes::BytesMut,
    new_len: usize,
    value: u8,
)
    requires
        new_len <= isize::MAX,
    ensures
        buffer_bytes(*final(buffer)) == if new_len <= buffer_bytes(*old(buffer)).len() {
            buffer_bytes(*old(buffer)).take(new_len as int)
        } else {
            buffer_bytes(*old(buffer)) + filled(
                (new_len - buffer_bytes(*old(buffer)).len()) as nat,
                value,
            )
        },
;

/// Truncating keeps the first `len` bytes, and all of them where the
/// buffer holds no more than `len`.
pub assume_specification[ bytes::BytesMut::truncate ](buffer: &mut bytes::BytesMut, len: usize)
    ensures
        buffer_bytes(*final(buffer)) == if len <= buffer_bytes(*old(buffer)).len() {
            buffer_bytes(*old(buffer)).take(len as int)
        } else {
            buffer_bytes(*old(buffer))
        },
;

/// Freezing a buffer keeps its bytes.
pub assume_specification[ bytes::BytesMut::freeze ](buffer: bytes::BytesMut) -> (chunk:
    bytes::Bytes)
    ensures
        chunk_bytes(chunk) == buffer_bytes(buffer),
;

} // verus!
