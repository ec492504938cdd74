//! The binary `COPY` format: what a payload is, byte for byte.
//!
//! A payload is a header, any number of rows, and a trailer. A row is its field
//! count and then its fields; a field is its length and then its bytes. Counts
//! and lengths are big-endian and signed, which leaves -1 free to mark a null
//! field in place of a length, and the trailer in place of a count.
use vstd::prelude::*;

verus! {

/// The signature every binary payload opens with: `PGCOPY\n\xff\r\n\0`.
pub const SIGNATURE: [u8; 11] = [
    0x50, 0x47, 0x43, 0x4f, 0x50, 0x59, 0x0a, 0xff, 0x0d, 0x0a, 0x00,
];

/// The flags word and the header extension length, both unused, both zero.
pub const HEADER_FIELDS: [u8; 8] = [0, 0, 0, 0, 0, 0, 0, 0];

/// The trailer: a field count no row can have.
pub const TRAILER: [u8; 2] = [0xff, 0xff];

/// A null field: a length prefix of -1 and no data.
pub const NULL_FIELD: [u8; 4] = [0xff, 0xff, 0xff, 0xff];

/// How many bytes a length prefix takes.
pub const PREFIX_LEN: usize = 4;

/// A field as the format sees it: null, or some bytes.
pub type Field = Option<Seq<u8>>;

/// `n` as a big-endian, two's complement 16-bit integer.
pub open spec fn be16(n: int) -> Seq<u8> {
    seq![(n / 256 % 256) as u8, (n % 256) as u8]
}

/// `n` as a big-endian, two's complement 32-bit integer.
pub open spec fn be32(n: int) -> Seq<u8> {
    seq![
        (n / 0x100_0000 % 256) as u8,
        (n / 0x1_0000 % 256) as u8,
        (n / 0x100 % 256) as u8,
        (n % 256) as u8,
    ]
}

/// What a payload opens with: the signature, no flags, and no extension.
pub open spec fn header() -> Seq<u8> {
    SIGNATURE@ + be32(0) + be32(0)
}

/// What a payload ends with.
pub open spec fn trailer() -> Seq<u8> {
    be16(-1)
}

/// A field, framed: a length of -1 for a null, and otherwise the length of the
/// bytes and the bytes themselves.
pub open spec fn field_bytes(field: Field) -> Seq<u8> {
    match field {
        None => be32(-1),
        Some(bytes) => be32(bytes.len() as int) + bytes,
    }
}

/// Fields, framed one after the other.
pub open spec fn fields_bytes(fields: Seq<Field>) -> Seq<u8>
    decreases fields.len(),
{
    if fields.len() == 0 {
        Seq::empty()
    } else {
        fields_bytes(fields.drop_last()) + field_bytes(fields.last())
    }
}

/// A row of a copy of `columns` columns: the field count and the fields.
pub open spec fn row_bytes(columns: nat, fields: Seq<Field>) -> Seq<u8> {
    be16(columns as int) + fields_bytes(fields)
}

/// Rows, one after the other.
pub open spec fn rows_bytes(columns: nat, rows: Seq<Seq<Field>>) -> Seq<u8>
    decreases rows.len(),
{
    if rows.len() == 0 {
        Seq::empty()
    } else {
        rows_bytes(columns, rows.drop_last()) + row_bytes(columns, rows.last())
    }
}

/// The whole payload of a copy of `columns` columns that carries `rows`.
pub open spec fn payload(columns: nat, rows: Seq<Seq<Field>>) -> Seq<u8> {
    header() + rows_bytes(columns, rows) + trailer()
}

/// The field is one a length prefix can announce.
pub open spec fn field_fits(field: Field) -> bool {
    field matches Some(bytes) ==> bytes.len() <= i32::MAX
}

/// The row has a field for each of `columns` columns, each of which fits.
pub open spec fn row_fits(columns: nat, fields: Seq<Field>) -> bool {
    &&& fields.len() == columns
    &&& forall|i: int| 0 <= i < fields.len() ==> field_fits(#[trigger] fields[i])
}

/// The 16-bit integer that `bytes` opens with.
pub open spec fn read16(bytes: Seq<u8>) -> int
    recommends
        bytes.len() >= 2,
{
    let n = bytes[0] * 0x100 + bytes[1];
    if n <= i16::MAX {
        n
    } else {
        n - 0x1_0000
    }
}

/// The 32-bit integer that `bytes` opens with.
pub open spec fn read32(bytes: Seq<u8>) -> int
    recommends
        bytes.len() >= 4,
{
    let n = bytes[0] * 0x100_0000 + bytes[1] * 0x1_0000 + bytes[2] * 0x100 + bytes[3];
    if n <= i32::MAX {
        n
    } else {
        n - 0x1_0000_0000
    }
}

/// The field that `bytes` opens with and what follows it, if it opens with one.
pub open spec fn read_field(bytes: Seq<u8>) -> Option<(Field, Seq<u8>)> {
    if bytes.len() < PREFIX_LEN {
        None
    } else {
        let len = read32(bytes);
        let body = bytes.skip(PREFIX_LEN as int);
        if len == -1 {
            Some((None, body))
        } else if 0 <= len <= body.len() {
            Some((Some(body.take(len)), body.skip(len)))
        } else {
            None
        }
    }
}

/// The `count` fields that `bytes` opens with and what follows them, if it opens
/// with as many.
pub open spec fn read_fields(bytes: Seq<u8>, count: nat) -> Option<(Seq<Field>, Seq<u8>)>
    decreases count,
{
    if count == 0 {
        Some((Seq::empty(), bytes))
    } else {
        match read_field(bytes) {
            None => None,
            Some((field, after)) => match read_fields(after, (count - 1) as nat) {
                None => None,
                Some((fields, rest)) => Some((seq![field] + fields, rest)),
            },
        }
    }
}

/// The rows in `bytes`, if it holds nothing but rows and the trailer after them.
pub open spec fn read_rows(bytes: Seq<u8>) -> Option<Seq<Seq<Field>>>
    decreases bytes.len(),
{
    if bytes.len() < 2 {
        None
    } else if read16(bytes) == -1 {
        if bytes.len() == 2 {
            Some(Seq::empty())
        } else {
            None
        }
    } else if read16(bytes) < 0 {
        None
    } else {
        match read_fields(bytes.skip(2), read16(bytes) as nat) {
            Some((fields, rest)) if rest.len() < bytes.len() => match read_rows(rest) {
                None => None,
                Some(rows) => Some(seq![fields] + rows),
            },
            _ => None,
        }
    }
}

/// The rows in a payload without flags or an extension, or `None` if `bytes` is
/// not one.
pub open spec fn read_payload(bytes: Seq<u8>) -> Option<Seq<Seq<Field>>> {
    if header().is_prefix_of(bytes) {
        read_rows(bytes.skip(header().len() as int))
    } else {
        None
    }
}

/// The big-endian bytes of a field count.
pub(crate) fn count_bytes(count: i16) -> (bytes: [u8; 2])
    requires
        count >= 0,
    ensures
        bytes@ == be16(count as int),
{
    [(count / 256) as u8, (count % 256) as u8]
}

/// The big-endian bytes of a field's length.
pub(crate) fn length_bytes(len: i32) -> (bytes: [u8; 4])
    requires
        len >= 0,
    ensures
        bytes@ == be32(len as int),
{
    [
        (len / 0x100_0000) as u8,
        (len / 0x1_0000 % 256) as u8,
        (len / 0x100 % 256) as u8,
        (len % 256) as u8,
    ]
}

} // verus!
