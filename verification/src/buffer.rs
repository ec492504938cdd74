//! The driver's argument buffer, as the byte vector it dereferences to.
//!
//! Values encode themselves straight into a `PgArgumentBuffer`, so the payload
//! is built in one. Everything the crate does with its bytes goes through the
//! two dereferences below.
use sqlx::postgres::PgArgumentBuffer;
use vstd::prelude::*;

verus! {

/// `sqlx::postgres::PgArgumentBuffer`: the bytes written so far, and beside
/// them what the driver means to patch later.
#[verifier::external_type_specification]
#[verifier::external_body]
pub struct ExPgArgumentBuffer(PgArgumentBuffer);

/// The bytes in the buffer.
pub uninterp spec fn contents(buf: PgArgumentBuffer) -> Seq<u8>;

/// How many places in its bytes the driver has recorded to patch later, against
/// a prepared statement's parameters: one for each patch callback and one for
/// each type it knows by name rather than OID.
pub uninterp spec fn deferred(buf: PgArgumentBuffer) -> nat;

/// `PgArgumentBuffer::default`: a buffer with no bytes and nothing deferred.
#[verifier::external_body]
pub(crate) fn empty_buffer() -> (buf: PgArgumentBuffer)
    ensures
        contents(buf) == Seq::<u8>::empty(),
        deferred(buf) == 0,
{
    PgArgumentBuffer::default()
}

/// `PgArgumentBuffer::deref`: a view of the bytes in the buffer.
#[verifier::external_body]
pub(crate) fn as_bytes(buf: &PgArgumentBuffer) -> (bytes: &Vec<u8>)
    ensures
        bytes@ == contents(*buf),
{
    buf
}

/// `PgArgumentBuffer::deref_mut`: the bytes in the buffer, to be changed in
/// place. What is deferred is kept apart from the bytes, and stays as it is.
#[verifier::external_body]
pub(crate) fn as_bytes_mut(buf: &mut PgArgumentBuffer) -> (bytes: &mut Vec<u8>)
    ensures
        bytes@ == contents(*old(buf)),
        contents(*final(buf)) == final(bytes)@,
        deferred(*final(buf)) == deferred(*old(buf)),
{
    buf
}

/// `Vec::capacity`: how many bytes the vector holds without reallocating, which
/// is never fewer than it holds already. How many more is up to the allocator.
#[verifier::external_body]
pub(crate) fn capacity(bytes: &Vec<u8>) -> (capacity: usize)
    ensures
        capacity >= bytes@.len(),
{
    bytes.capacity()
}

} // verus!
