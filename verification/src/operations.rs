//! What each operation does, in plain terms.
//!
//! The laws here speak of calls, of what goes into one and what comes out, and
//! spell the bytes out. They hold of every state, reachable or not.
use crate::buffer::{contents, deferred};
use crate::copy_in::{begin_checked, reply, Closing, CopyIn, CopyState, Refusal};
use crate::encode::{
    push_field, row_settled, value_settled, Encoder, EncoderState, IsNull, Row, RowState,
};
use crate::error::Error;
use crate::format::{
    be16, be32, field_bytes, field_fits, fields_bytes, header, payload, row_bytes, row_fits,
    rows_bytes, trailer, Field,
};
use crate::laws::{
    after_push, after_pushes, is_run, kept_rows, law_a_copy_writes_the_rows_it_keeps,
    law_a_row_is_kept_whole_or_not_at_all, law_a_row_of_pushes_is_an_event, pushed_field, pushed_fields, rows_fit, takes, Event, Push,
};
use sqlx::postgres::PgArgumentBuffer;
use sqlx::Error as DriverError;
use vstd::prelude::*;

verus! {

/// A count is two bytes, the high one first, in two's complement.
pub proof fn law_a_count_is_big_endian(n: int)
    requires
        -0x8000 <= n <= 0x7fff,
    ensures
        be16(n).len() == 2,
        be16(n)[0] * 0x100 + be16(n)[1] == if n < 0 {
            n + 0x1_0000
        } else {
            n
        },
{
}

/// A length is four bytes, the highest one first, in two's complement.
pub proof fn law_a_length_is_big_endian(n: int)
    requires
        -0x8000_0000 <= n <= 0x7fff_ffff,
    ensures
        be32(n).len() == 4,
        be32(n)[0] * 0x100_0000 + be32(n)[1] * 0x1_0000 + be32(n)[2] * 0x100 + be32(n)[3]
            == if n < 0 {
            n + 0x1_0000_0000
        } else {
            n
        },
{
    let (a, b, c) = (n / 0x100_0000, n / 0x1_0000, n / 0x100);
    assert(c == b * 256 + c % 256);
    assert(b == a * 256 + b % 256);
    assert(-128 <= a <= 127);
    assert(be32(n)[0] == if a < 0 {
        a + 256
    } else {
        a
    });
}

/// A payload opens with `PGCOPY\n\xff\r\n\0`, and eight zeros.
pub proof fn law_a_header_is_the_signature_and_zeros()
    ensures
        header() == seq![
            0x50u8, 0x47u8, 0x43u8, 0x4fu8, 0x50u8, 0x59u8, 0x0au8, 0xffu8, 0x0du8, 0x0au8, 0u8,
            0u8, 0u8, 0u8, 0u8, 0u8, 0u8, 0u8, 0u8,
        ],
{
}

/// A payload ends with two bytes of ones.
pub proof fn law_a_trailer_is_two_bytes()
    ensures
        trailer() == seq![0xffu8, 0xffu8],
{
}

/// A null field is four bytes of ones. Any other is its length, in four bytes,
/// and then just its own bytes.
pub proof fn law_a_field_is_a_length_and_bytes(field: Field)
    ensures
        match field {
            None => field_bytes(field) == seq![0xffu8, 0xffu8, 0xffu8, 0xffu8],
            Some(bytes) => bytes.len() <= 0x7fff_ffff ==> {
                let framed = field_bytes(field);
                &&& framed.len() == 4 + bytes.len()
                &&& framed[0] * 0x100_0000 + framed[1] * 0x1_0000 + framed[2] * 0x100 + framed[3]
                    == bytes.len()
                &&& framed.skip(4) == bytes
            },
        },
{
    if let Some(bytes) = field {
        if bytes.len() <= 0x7fff_ffff {
            law_a_length_is_big_endian(bytes.len() as int);
            let framed = field_bytes(field);
            assert(framed.skip(4) == bytes);
            assert(framed[0] == be32(bytes.len() as int)[0]);
            assert(framed[1] == be32(bytes.len() as int)[1]);
            assert(framed[2] == be32(bytes.len() as int)[2]);
            assert(framed[3] == be32(bytes.len() as int)[3]);
        }
    }
}

/// A field fits if it is null or of at most 2^31 - 1 bytes, and a row fits if it
/// has one such field for each column.
pub proof fn law_what_fits(field: Field, columns: nat, fields: Seq<Field>, rows: Seq<Seq<Field>>)
    ensures
        field_fits(field) <==> (field is None || field->Some_0.len() <= 0x7fff_ffff),
        row_fits(columns, fields) <==> {
            &&& fields.len() == columns
            &&& forall|i: int|
                0 <= i < fields.len() ==> {
                    ||| (#[trigger] fields[i]) is None
                    ||| fields[i]->Some_0.len() <= 0x7fff_ffff
                }
        },
        rows_fit(columns, rows) <==> forall|i: int|
            0 <= i < rows.len() ==> row_fits(columns, #[trigger] rows[i]),
{
}

/// Fields follow each other with nothing in between.
pub proof fn law_fields_follow_each_other(fields: Seq<Field>, field: Field)
    ensures
        fields_bytes(Seq::empty()) == Seq::<u8>::empty(),
        fields_bytes(fields.push(field)) == fields_bytes(fields) + field_bytes(field),
{
    assert(fields.push(field).drop_last() == fields);
}

/// A row is its field count, in two bytes, and then just its fields.
pub proof fn law_a_row_is_a_count_and_fields(columns: nat, fields: Seq<Field>)
    requires
        columns <= 0x7fff,
    ensures
        row_bytes(columns, fields).len() == 2 + fields_bytes(fields).len(),
        row_bytes(columns, fields)[0] * 0x100 + row_bytes(columns, fields)[1] == columns,
        row_bytes(columns, fields).skip(2) == fields_bytes(fields),
{
    law_a_count_is_big_endian(columns as int);
    let bytes = row_bytes(columns, fields);
    assert(bytes[0] == be16(columns as int)[0]);
    assert(bytes[1] == be16(columns as int)[1]);
    assert(bytes.skip(2) == fields_bytes(fields));
}

/// Rows follow each other with nothing in between.
pub proof fn law_rows_follow_each_other(
    columns: nat,
    rows: Seq<Seq<Field>>,
    row: Seq<Field>,
)
    ensures
        rows_bytes(columns, Seq::empty()) == Seq::<u8>::empty(),
        rows_bytes(columns, rows.push(row)) == rows_bytes(columns, rows) + row_bytes(columns, row),
{
    assert(rows.push(row).drop_last() == rows);
}

/// A payload is the header, the rows and the trailer, and nothing else.
pub proof fn law_a_payload_is_header_rows_and_trailer(columns: nat, rows: Seq<Seq<Field>>)
    ensures
        payload(columns, rows) == seq![
            0x50u8, 0x47u8, 0x43u8, 0x4fu8, 0x50u8, 0x59u8, 0x0au8, 0xffu8, 0x0du8, 0x0au8, 0u8,
            0u8, 0u8, 0u8, 0u8, 0u8, 0u8, 0u8, 0u8,
        ] + rows_bytes(columns, rows) + seq![0xffu8, 0xffu8],
{
    law_a_header_is_the_signature_and_zeros();
    law_a_trailer_is_two_bytes();
}

/// A row with one more field has its bytes at the end of the buffer, counts one
/// more, and is otherwise as it was.
pub proof fn law_a_row_grows_by_a_field(row: RowState, field: Field)
    ensures
        row.push(field).bytes == row.bytes + field_bytes(field),
        row.push(field).written == row.written + 1,
        row.push(field).columns == row.columns,
        row.push(field).index == row.index,
        row.push(field).deferred == row.deferred,
        row.push_all(Seq::empty()) == row,
{
}

/// The next row of a payload opens with the column count, behind all there is,
/// and has no field yet.
pub proof fn law_the_next_row_is_empty(encoder: EncoderState)
    requires
        encoder.columns <= 0x7fff,
    ensures
        encoder.next_row().bytes.len() == encoder.bytes.len() + 2,
        encoder.next_row().bytes.take(encoder.bytes.len() as int) == encoder.bytes,
        encoder.next_row().bytes[encoder.bytes.len() as int] * 0x100
            + encoder.next_row().bytes[encoder.bytes.len() as int + 1] == encoder.columns,
        encoder.next_row().written == 0,
        encoder.next_row().columns == encoder.columns,
        encoder.next_row().index == encoder.rows,
        encoder.next_row().deferred == encoder.deferred,
{
    law_a_count_is_big_endian(encoder.columns as int);
    let bytes = encoder.next_row().bytes;
    assert(bytes.take(encoder.bytes.len() as int) == encoder.bytes);
    assert(bytes[encoder.bytes.len() as int] == be16(encoder.columns as int)[0]);
    assert(bytes[encoder.bytes.len() as int + 1] == be16(encoder.columns as int)[1]);
}

/// A field-count error names the row, its columns and the fields it wrote.
pub proof fn law_a_field_count_error_names_the_row(row: RowState, written: nat)
    requires
        row.columns <= 0xffff,
        written <= 0x1_0000,
    ensures
        row.field_count(written) matches Error::FieldCount { row: index, columns, written: said }
            && index == row.index && columns == row.columns && said == written,
{
}

/// A value ends as its encoding did, at whatever column.
///
/// If the encoding failed, the error is an encoding error with that column, the
/// name of the type and that same cause. If it said null, the field is the four
/// bytes written for its prefix. If it did not, the prefix becomes the number of
/// bytes behind it; where no prefix can say that number, the error is a
/// field-size error with the column and the number. What failed is cut away and
/// not counted.
pub proof fn law_a_value_ends_as_its_encoding_did<N: FnOnce() -> String>(
    before: RowState,
    encoded: Seq<u8>,
    places: nat,
    outcome: Result<IsNull, DriverError>,
    pg_type: N,
    after: RowState,
    result: Result<(), Error>,
)
    requires
        value_settled(before, encoded, places, outcome, pg_type, after, result),
    ensures
        after.columns == before.columns,
        after.index == before.index,
        after.deferred == places,
        result is Ok ==> outcome is Ok && after.written == before.written + 1,
        result is Err ==> {
            &&& after.written == before.written
            &&& after.bytes.len() <= before.bytes.len()
            &&& before.bytes.len() <= encoded.len() ==> after.bytes == encoded.take(
                before.bytes.len() as int,
            )
            &&& before.bytes.len() > encoded.len() ==> after.bytes == encoded
        },
        outcome matches Err(error) ==> {
            &&& result matches Err(Error::Encode { column, pg_type: name, source })
            &&& column == before.written
            &&& source == error
            &&& call_ensures(pg_type, (), name)
        },
        outcome matches Ok(IsNull::Yes) ==> {
            &&& result is Ok
            &&& before.bytes.len() + 4 <= encoded.len() ==> after.bytes == encoded.take(
                before.bytes.len() as int + 4,
            )
            &&& before.bytes.len() + 4 > encoded.len() ==> after.bytes == encoded
        },
        outcome matches Ok(IsNull::No) ==> {
            let start = before.bytes.len() as int;
            let len = encoded.len() - start - 4;
            if 0 <= len <= 0x7fff_ffff {
                let bytes = after.bytes;
                &&& result is Ok
                &&& bytes.len() == encoded.len()
                &&& bytes.take(start) == encoded.take(start)
                &&& bytes[start] * 0x100_0000 + bytes[start + 1] * 0x1_0000 + bytes[start + 2]
                    * 0x100 + bytes[start + 3] == len
                &&& bytes.skip(start + 4) == encoded.skip(start + 4)
            } else {
                &&& result matches Err(Error::FieldSize { column, len: reported })
                &&& column == before.written
                &&& len >= 0 ==> reported == len
                &&& len < 0 ==> reported == len + usize::MAX + 1
            }
        },
{
    let start = before.bytes.len() as int;
    let len = encoded.len() - start - 4;
    if outcome == Ok::<IsNull, DriverError>(IsNull::No) && 0 <= len <= 0x7fff_ffff {
        let bytes = after.bytes;
        law_a_length_is_big_endian(len);
        assert(bytes.take(start) == encoded.take(start));
        assert(bytes.skip(start + 4) == encoded.skip(start + 4));
        assert(bytes[start] == be32(len)[0]);
        assert(bytes[start + 1] == be32(len)[1]);
        assert(bytes[start + 2] == be32(len)[2]);
        assert(bytes[start + 3] == be32(len)[3]);
    }
}

/// A row ends as its closure did, whichever row it is.
///
/// If the closure failed, that same error comes out. If it did not and the row
/// has a field for each column, the row is kept and counted. Otherwise the error
/// is made from a field-count error, with the row, its columns and its fields. A
/// row that is not kept is cut away and not counted.
pub proof fn law_a_row_ends_as_its_closure_did<E: From<Error>>(
    before: EncoderState,
    row: RowState,
    outcome: Result<(), E>,
    after: EncoderState,
    result: Result<(), E>,
)
    requires
        before.rows < u64::MAX,
        row_settled(before, row, outcome, after, result),
    ensures
        after.columns == before.columns,
        after.deferred == row.deferred,
        outcome matches Err(err) ==> result == Err::<(), E>(err),
        result is Ok <==> outcome is Ok && row.written == row.columns,
        outcome is Ok && row.written != row.columns ==> {
            &&& result matches Err(err)
            &&& call_ensures(
                <E as From<Error>>::from,
                (Error::FieldCount {
                    row: row.index,
                    columns: row.columns as usize,
                    written: row.written as usize,
                },),
                err,
            )
        },
        result is Ok ==> after.bytes == row.bytes && after.rows == before.rows + 1,
        result is Err ==> {
            &&& after.rows == before.rows
            &&& before.bytes.len() <= row.bytes.len() ==> after.bytes == row.bytes.take(
                before.bytes.len() as int,
            )
            &&& before.bytes.len() > row.bytes.len() ==> after.bytes == row.bytes
        },
{
}

/// A row whose closure fails with [`Error`] itself and is left short gets just
/// the field-count error, with what it wrote.
pub proof fn law_a_short_row_is_a_field_count_error(
    before: EncoderState,
    row: RowState,
    after: EncoderState,
    result: Result<(), Error>,
)
    requires
        row.columns <= 0xffff,
        row.written <= 0xffff,
        row.written != row.columns,
        row_settled(before, row, Ok::<(), Error>(()), after, result),
    ensures
        result matches Err(Error::FieldCount { row: index, columns, written }) && index
            == row.index && columns == row.columns && written == row.written,
{
}

/// Pushing a null adds four bytes of ones to a row that has room, and nothing to
/// one that does not.
pub proof fn law_push_null()
    ensures
        forall|row: &mut Row<'_>, outcome: Result<(), Error>|
            #[trigger] call_ensures(Row::push_null, (row,), outcome) ==> {
                &&& final(row)@.columns == row@.columns
                &&& final(row)@.index == row@.index
                &&& final(row)@.deferred == row@.deferred
                &&& final(row)@ == after_push(row@, Push::Null)
                &&& row@.written < row@.columns ==> {
                    &&& outcome is Ok
                    &&& final(row)@.bytes == row@.bytes + seq![0xffu8, 0xffu8, 0xffu8, 0xffu8]
                    &&& final(row)@.written == row@.written + 1
                }
                &&& row@.written >= row@.columns ==> {
                    &&& outcome matches Err(Error::FieldCount { row: index, columns, written })
                    &&& index == row@.index
                    &&& columns == row@.columns
                    &&& written == row@.written + 1
                    &&& final(row)@.bytes == row@.bytes
                    &&& final(row)@.written == row@.written
                }
            },
{
    assert forall|row: &mut Row<'_>, outcome: Result<(), Error>| #[trigger]
        call_ensures(Row::push_null, (row,), outcome) && row@.written
            >= row@.columns implies (outcome matches Err(
        Error::FieldCount { row: index, columns, written },
    ) && columns == row@.columns && written == row@.written + 1) by {
        row.lemma_counts_fit();
    }
    law_a_field_is_a_length_and_bytes(None);
}

/// Pushing raw bytes adds their length, in four bytes, and then just them to a
/// row that has room, if a length can say how many there are; and otherwise
/// nothing.
pub proof fn law_push_raw(bytes: &[u8])
    ensures
        forall|row: &mut Row<'_>, outcome: Result<(), Error>|
            #[trigger] call_ensures(Row::push_raw, (row, bytes), outcome) ==> {
                let start = row@.bytes.len() as int;
                let after = final(row)@.bytes;
                &&& final(row)@.columns == row@.columns
                &&& final(row)@.index == row@.index
                &&& final(row)@.deferred == row@.deferred
                &&& final(row)@ == after_push(row@, Push::Raw { bytes: bytes@ })
                &&& row@.written < row@.columns && bytes@.len() <= 0x7fff_ffff ==> {
                    &&& outcome is Ok
                    &&& after.len() == start + 4 + bytes@.len()
                    &&& after.take(start) == row@.bytes
                    &&& after[start] * 0x100_0000 + after[start + 1] * 0x1_0000 + after[start + 2]
                        * 0x100 + after[start + 3] == bytes@.len()
                    &&& after.skip(start + 4) == bytes@
                    &&& final(row)@.written == row@.written + 1
                }
                &&& row@.written < row@.columns && bytes@.len() > 0x7fff_ffff ==> {
                    &&& outcome matches Err(Error::FieldSize { column, len })
                    &&& column == row@.written
                    &&& len == bytes@.len()
                    &&& after == row@.bytes
                    &&& final(row)@.written == row@.written
                }
                &&& row@.written >= row@.columns ==> {
                    &&& outcome matches Err(Error::FieldCount { row: index, columns, written })
                    &&& index == row@.index
                    &&& columns == row@.columns
                    &&& written == row@.written + 1
                    &&& after == row@.bytes
                    &&& final(row)@.written == row@.written
                }
            },
{
    assert forall|row: &mut Row<'_>, outcome: Result<(), Error>| #[trigger]
        call_ensures(Row::push_raw, (row, bytes), outcome) implies {
        let start = row@.bytes.len() as int;
        let after = final(row)@.bytes;
        &&& row@.written < row@.columns && bytes@.len() <= 0x7fff_ffff ==> {
            &&& after.take(start) == row@.bytes
            &&& after[start] * 0x100_0000 + after[start + 1] * 0x1_0000 + after[start + 2] * 0x100
                + after[start + 3] == bytes@.len()
            &&& after.skip(start + 4) == bytes@
        }
        &&& row@.written >= row@.columns ==> (outcome matches Err(
            Error::FieldCount { row: index, columns, written },
        ) && columns == row@.columns && written == row@.written + 1)
    } by {
        row.lemma_counts_fit();
        let start = row@.bytes.len() as int;
        let after = final(row)@.bytes;
        let framed = field_bytes(Some(bytes@));
        law_a_field_is_a_length_and_bytes(Some(bytes@));
        if row@.written < row@.columns && bytes@.len() <= 0x7fff_ffff {
            assert(after == row@.bytes + framed);
            assert(after.take(start) == row@.bytes);
            assert(after.skip(start + 4) == framed.skip(4));
            assert(after[start] == framed[0]);
            assert(after[start + 1] == framed[1]);
            assert(after[start + 2] == framed[2]);
            assert(after[start + 3] == framed[3]);
        }
    }
}

/// Pushing a value runs its encoding on what the row holds, with four bytes of
/// ones behind it, and ends as the encoding did; but a row without room refuses
/// the value.
pub proof fn law_push_value<F, N>(encode: F, pg_type: N) where
    F: FnOnce(&mut PgArgumentBuffer) -> Result<IsNull, DriverError>,
    N: FnOnce() -> String,

    ensures
        forall|row: &mut Row<'_>, outcome: Result<(), Error>|
            #[trigger] call_ensures(Row::push_value::<F, N>, (row, encode, pg_type), outcome) ==> {
                &&& row@.written < row@.columns ==> exists|
                    buf: &mut PgArgumentBuffer,
                    encoded: Result<IsNull, DriverError>,
                |
                    {
                        &&& contents(*buf) == row@.bytes + seq![0xffu8, 0xffu8, 0xffu8, 0xffu8]
                        &&& deferred(*buf) == row@.deferred
                        &&& #[trigger] call_ensures(encode, (buf,), encoded)
                        &&& value_settled(
                            row@,
                            contents(*final(buf)),
                            deferred(*final(buf)),
                            encoded,
                            pg_type,
                            final(row)@,
                            outcome,
                        )
                        &&& encoded matches Err(error) ==> {
                            &&& outcome matches Err(Error::Encode { column, pg_type: name, source })
                            &&& column == row@.written
                            &&& source == error
                            &&& call_ensures(pg_type, (), name)
                        }
                    }
                &&& row@.written >= row@.columns ==> {
                    &&& outcome matches Err(Error::FieldCount { row: index, columns, written })
                    &&& index == row@.index
                    &&& columns == row@.columns
                    &&& written == row@.written + 1
                    &&& final(row)@ == row@
                }
            },
{
    law_a_field_is_a_length_and_bytes(None);
    assert forall|row: &mut Row<'_>, outcome: Result<(), Error>| #[trigger]
        call_ensures(Row::push_value::<F, N>, (row, encode, pg_type), outcome) && row@.written
            >= row@.columns implies (outcome matches Err(
        Error::FieldCount { row: index, columns, written },
    ) && columns == row@.columns && written == row@.written + 1) by {
        row.lemma_counts_fit();
    }
}

/// Pushing a field appends its length, in four bytes, and its bytes, if a length
/// can say how many there are.
pub proof fn law_push_field(bytes: &[u8], column: usize)
    ensures
        forall|buf: &mut Vec<u8>, outcome: Result<(), Error>|
            #[trigger] call_ensures(push_field, (buf, bytes, column), outcome) ==> {
                let start = buf@.len() as int;
                let after = final(buf)@;
                &&& bytes@.len() <= 0x7fff_ffff ==> {
                    &&& outcome is Ok
                    &&& after.len() == start + 4 + bytes@.len()
                    &&& after.take(start) == buf@
                    &&& after[start] * 0x100_0000 + after[start + 1] * 0x1_0000 + after[start + 2]
                        * 0x100 + after[start + 3] == bytes@.len()
                    &&& after.skip(start + 4) == bytes@
                }
                &&& bytes@.len() > 0x7fff_ffff ==> {
                    &&& outcome matches Err(Error::FieldSize { column: at, len })
                    &&& at == column
                    &&& len == bytes@.len()
                    &&& after == buf@
                }
            },
{
    assert forall|buf: &mut Vec<u8>, outcome: Result<(), Error>| #[trigger]
        call_ensures(push_field, (buf, bytes, column), outcome) && bytes@.len()
            <= 0x7fff_ffff implies {
        let start = buf@.len() as int;
        let after = final(buf)@;
        &&& after.take(start) == buf@
        &&& after[start] * 0x100_0000 + after[start + 1] * 0x1_0000 + after[start + 2] * 0x100
            + after[start + 3] == bytes@.len()
        &&& after.skip(start + 4) == bytes@
    } by {
        let start = buf@.len() as int;
        let after = final(buf)@;
        let framed = field_bytes(Some(bytes@));
        law_a_field_is_a_length_and_bytes(Some(bytes@));
        assert(after == buf@ + framed);
        assert(after.take(start) == buf@);
        assert(after.skip(start + 4) == framed.skip(4));
        assert(after[start] == framed[0]);
        assert(after[start + 1] == framed[1]);
        assert(after[start + 2] == framed[2]);
        assert(after[start + 3] == framed[3]);
    }
}

/// A new payload is the header, in a copy of as many columns as a count can say,
/// and has no row.
pub proof fn law_new(columns: usize, outcome: Result<Encoder, Error>)
    requires
        call_ensures(Encoder::new, (columns,), outcome),
    ensures
        columns <= 0x7fff ==> {
            &&& outcome matches Ok(encoder)
            &&& encoder.well_formed()
            &&& encoder@.bytes == seq![
                0x50u8, 0x47u8, 0x43u8, 0x4fu8, 0x50u8, 0x59u8, 0x0au8, 0xffu8, 0x0du8, 0x0au8,
                0u8, 0u8, 0u8, 0u8, 0u8, 0u8, 0u8, 0u8, 0u8,
            ]
            &&& encoder@.columns == columns
            &&& encoder@.rows == 0
            &&& encoder@.deferred == 0
        },
        columns > 0x7fff ==> outcome == Err::<Encoder, Error>(Error::ColumnLimit { columns }),
{
    law_a_header_is_the_signature_and_zeros();
}

/// Writing a row hands the closure the next row, empty, and ends as the closure
/// did: with its error if it failed, whichever row it is.
pub proof fn law_write_row<E: From<Error>, F: FnOnce(&mut Row<'_>) -> Result<(), E>>(write: F)
    ensures
        forall|encoder: &mut Encoder, result: Result<(), E>|
            #[trigger] call_ensures(Encoder::write_row::<E, F>, (encoder, write), result) ==> {
                &&& final(encoder).well_formed()
                &&& final(encoder)@.columns == encoder@.columns
                &&& exists|row: &mut Row<'_>, outcome: Result<(), E>|
                    {
                        &&& row@ == encoder@.next_row()
                        &&& #[trigger] call_ensures(write, (row,), outcome)
                        &&& row_settled(encoder@, final(row)@, outcome, final(encoder)@, result)
                        &&& outcome matches Err(err) ==> result == Err::<(), E>(err)
                        &&& result is Ok <==> {
                            &&& outcome is Ok
                            &&& final(row)@.written == final(row)@.columns
                        }
                    }
            },
{
}

/// The row count and the buffer are what the payload has of them, and what is
/// done to the buffer is done to the payload.
pub proof fn law_rows_and_buffer(encoder: Encoder, rows: u64)
    ensures
        call_ensures(Encoder::rows, (&encoder,), rows) ==> rows == encoder@.rows,
        forall|encoder: &mut Encoder, bytes: &mut Vec<u8>|
            #[trigger] call_ensures(Encoder::buffer, (encoder,), bytes) ==> {
                &&& bytes@ == encoder@.bytes
                &&& final(encoder)@.bytes == final(bytes)@
                &&& final(encoder)@.rows == encoder@.rows
                &&& final(encoder)@.columns == encoder@.columns
                &&& final(encoder)@.deferred == encoder@.deferred
                &&& encoder.well_formed() ==> final(encoder).well_formed()
            },
{
}

/// Resetting empties the buffer and forgets what was to be patched, and sealing
/// adds two bytes of ones. Neither touches the counts.
pub proof fn law_reset_and_seal()
    ensures
        forall|encoder: &mut Encoder|
            #[trigger] call_ensures(Encoder::reset, (encoder,), ()) ==> {
                &&& final(encoder)@.bytes.len() == 0
                &&& final(encoder)@.deferred == 0
                &&& final(encoder)@.rows == encoder@.rows
                &&& final(encoder)@.columns == encoder@.columns
                &&& encoder.well_formed() ==> final(encoder).well_formed()
            },
        forall|encoder: &mut Encoder|
            #[trigger] call_ensures(Encoder::seal, (encoder,), ()) ==> {
                &&& final(encoder)@.bytes == encoder@.bytes + seq![0xffu8, 0xffu8]
                &&& final(encoder)@.deferred == encoder@.deferred
                &&& final(encoder)@.rows == encoder@.rows
                &&& final(encoder)@.columns == encoder@.columns
                &&& encoder.well_formed() ==> final(encoder).well_formed()
            },
{
    law_a_trailer_is_two_bytes();
}

/// The driver's answer is passed on, its error as a driver error.
pub proof fn law_reply<T>(outcome: Result<T, DriverError>, result: Result<T, Error>)
    requires
        call_ensures(reply::<T>, (outcome,), result),
    ensures
        outcome matches Ok(value) ==> result == Ok::<T, Error>(value),
        outcome matches Err(err) ==> result == Err::<T, Error>(Error::Sqlx(err)),
{
}

/// A refused caller is told why, unless the abort failed: then that is what the
/// caller is told.
pub proof fn law_answer(refusal: Refusal, aborted: Result<(), DriverError>, error: Error)
    requires
        call_ensures(Refusal::answer, (refusal, aborted), error),
    ensures
        aborted is Ok ==> error == refusal.error,
        aborted matches Err(err) ==> error == Error::Sqlx(err),
{
}

/// The format check refuses a textual statement, and nothing else.
pub proof fn law_begin_checked(textual: bool, outcome: Result<(), Refusal>)
    requires
        call_ensures(begin_checked, (textual,), outcome),
    ensures
        outcome is Err <==> textual,
        outcome matches Err(refusal) ==> {
            &&& refusal.error == Error::Textual
            &&& refusal.message@ == "the payload is binary and the statement is not"@
        },
{
}

/// A copy that begins holds the header, has sent nothing, has no row, and sends at
/// a megabyte, whatever its columns. It does not begin if the statement is
/// textual, or if a count cannot say its columns.
pub proof fn law_begin(textual: bool, columns: usize, outcome: Result<CopyIn, Refusal>)
    requires
        call_ensures(CopyIn::begin, (textual, columns), outcome),
    ensures
        outcome is Ok <==> !textual && columns <= 0x7fff,
        outcome matches Ok(copy) ==> {
            &&& copy.well_formed()
            &&& copy@.flush_at == 0x10_0000
            &&& copy@.sent.len() == 0
            &&& copy@.encoder.bytes == seq![
                0x50u8, 0x47u8, 0x43u8, 0x4fu8, 0x50u8, 0x59u8, 0x0au8, 0xffu8, 0x0du8, 0x0au8,
                0u8, 0u8, 0u8, 0u8, 0u8, 0u8, 0u8, 0u8, 0u8,
            ]
            &&& copy@.encoder.columns == columns
            &&& copy@.encoder.rows == 0
            &&& copy@.encoder.deferred == 0
            &&& copy@ == CopyState::begun(columns as nat)
        },
        outcome matches Err(refusal) ==> {
            &&& textual ==> {
                &&& refusal.error == Error::Textual
                &&& refusal.message@ == "the payload is binary and the statement is not"@
            }
            &&& !textual ==> {
                &&& refusal.error == (Error::ColumnLimit { columns })
                &&& refusal.message@ == "the copy has more columns than a row can hold"@
            }
        },
{
    law_a_header_is_the_signature_and_zeros();
    assert(1usize << 20 == 0x10_0000usize) by (bit_vector);
}

/// Changing the size at which to send changes nothing else, and is an event of
/// the copy.
pub proof fn law_flush_at(copy: CopyIn, bytes: usize, after: CopyIn)
    requires
        call_ensures(CopyIn::flush_at, (copy, bytes), after),
    ensures
        after@.flush_at == bytes,
        after@.sent == copy@.sent,
        after@.encoder == copy@.encoder,
        copy.well_formed() ==> after.well_formed(),
        takes(copy@, Event::FlushAt { bytes: bytes as nat }, after@),
{
}

/// The row count of a copy is that of its payload.
pub proof fn law_rows(copy: CopyIn, rows: u64)
    requires
        call_ensures(CopyIn::rows, (&copy,), rows),
    ensures
        rows == copy@.encoder.rows,
{
}

/// Writing a row to a copy sends nothing and changes no size. It ends as the
/// closure did, and a row that is kept says whether the buffer has reached the
/// size at which to send.
pub proof fn law_copy_write_row<E: From<Error>, F: FnOnce(&mut Row<'_>) -> Result<(), E>>(
    write: F,
)
    ensures
        forall|copy: &mut CopyIn, result: Result<bool, E>|
            #[trigger] call_ensures(CopyIn::write_row::<E, F>, (copy, write), result) ==> {
                &&& final(copy).well_formed()
                &&& final(copy)@.sent == copy@.sent
                &&& final(copy)@.flush_at == copy@.flush_at
                &&& final(copy)@.encoder.columns == copy@.encoder.columns
                &&& result matches Ok(full) ==> (full <==> final(copy)@.encoder.bytes.len()
                    >= final(copy)@.flush_at)
                &&& exists|row: &mut Row<'_>, outcome: Result<(), E>|
                    {
                        &&& row@ == copy@.encoder.next_row()
                        &&& #[trigger] call_ensures(write, (row,), outcome)
                        &&& outcome matches Err(err) ==> result == Err::<bool, E>(err)
                        &&& result is Ok <==> {
                            &&& outcome is Ok
                            &&& final(row)@.written == final(row)@.columns
                        }
                        &&& row_settled(
                            copy@.encoder,
                            final(row)@,
                            outcome,
                            final(copy)@.encoder,
                            match result {
                                Ok(_) => Ok::<(), E>(()),
                                Err(err) => Err::<(), E>(err),
                            },
                        )
                    }
            },
{
}

/// Writing a row is an event of the copy, if all its closure does is push, whatever
/// it makes of the pushes that are refused; and the row is kept just if it comes
/// out well.
pub proof fn law_a_row_is_an_event_of_its_copy<
    E: From<Error>,
    F: FnOnce(&mut Row<'_>) -> Result<(), E>,
>(write: F)
    requires
        forall|row: &mut Row<'_>, outcome: Result<(), E>|
            #[trigger] call_ensures(write, (row,), outcome) ==> exists|pushes: Seq<Push>|
                final(row)@ == #[trigger] after_pushes(row@, pushes),
    ensures
        forall|copy: &mut CopyIn, result: Result<bool, E>|
            #[trigger] call_ensures(CopyIn::write_row::<E, F>, (copy, write), result)
                && copy@.encoder.rows < u64::MAX ==> exists|event: Event|
                {
                    &&& #[trigger] takes(copy@, event, final(copy)@)
                    &&& event matches Event::Row { fields, row, succeeded }
                    &&& result is Ok <==> succeeded && row.written == row.columns
                    &&& result is Ok ==> fields.len() == copy@.encoder.columns
                },
{
    assert forall|copy: &mut CopyIn, result: Result<bool, E>| #[trigger]
        call_ensures(CopyIn::write_row::<E, F>, (copy, write), result) && copy@.encoder.rows
            < u64::MAX implies exists|event: Event|
        {
            &&& #[trigger] takes(copy@, event, final(copy)@)
            &&& event matches Event::Row { fields, row, succeeded }
            &&& result is Ok <==> succeeded && row.written == row.columns
            &&& result is Ok ==> fields.len() == copy@.encoder.columns
        } by {
        let before = copy@.encoder;
        let start = before.next_row();
        let ended = match result {
            Ok(_) => Ok::<(), E>(()),
            Err(err) => Err::<(), E>(err),
        };
        let (row, outcome) = choose|row: &mut Row<'_>, outcome: Result<(), E>|
            {
                &&& row@ == start
                &&& #[trigger] call_ensures(write, (row,), outcome)
                &&& row_settled(before, final(row)@, outcome, final(copy)@.encoder, ended)
            };
        let pushes = choose|pushes: Seq<Push>|
            final(row)@ == #[trigger] after_pushes(row@, pushes);
        law_a_row_of_pushes_is_an_event(copy@, pushes, outcome, final(copy)@, ended);
        law_a_row_is_kept_whole_or_not_at_all(
            before,
            pushes,
            outcome,
            final(copy)@.encoder,
            ended,
        );
        assert(takes(
            copy@,
            Event::Row {
                fields: pushed_fields(start, pushes),
                row: after_pushes(start, pushes),
                succeeded: outcome is Ok,
            },
            final(copy)@,
        ));
    }
}

/// What a copy has to send is what it has buffered, and asking changes nothing.
pub proof fn law_flush()
    ensures
        forall|copy: &mut CopyIn, bytes: Option<&[u8]>|
            #[trigger] call_ensures(CopyIn::flush, (copy,), bytes) ==> {
                &&& final(copy)@ == copy@
                &&& bytes is None <==> copy@.encoder.bytes.len() == 0
                &&& bytes matches Some(piece) ==> piece@ == copy@.encoder.bytes
                &&& copy.well_formed() ==> final(copy).well_formed()
            },
{
}

/// What was sent leaves the buffer, all of it, and is then counted as sent; what
/// was not sent stays, and the driver's error comes out. Either is an event of the
/// copy.
pub proof fn law_flushed(sent: Result<(), DriverError>)
    ensures
        forall|copy: &mut CopyIn, result: Result<(), Error>|
            #[trigger] call_ensures(CopyIn::flushed, (copy, sent), result) ==> {
                &&& final(copy)@.flush_at == copy@.flush_at
                &&& final(copy)@.encoder.rows == copy@.encoder.rows
                &&& final(copy)@.encoder.columns == copy@.encoder.columns
                &&& copy.well_formed() ==> final(copy).well_formed()
                &&& sent is Ok ==> {
                    &&& result is Ok
                    &&& final(copy)@.encoder.bytes.len() == 0
                    &&& final(copy)@.encoder.deferred == 0
                    &&& final(copy)@.sent == copy@.sent + copy@.encoder.bytes
                    &&& takes(copy@, Event::Sent, final(copy)@)
                }
                &&& sent matches Err(err) ==> {
                    &&& result == Err::<(), Error>(Error::Sqlx(err))
                    &&& final(copy)@.encoder.bytes == copy@.encoder.bytes
                    &&& final(copy)@.encoder.deferred == copy@.encoder.deferred
                    &&& final(copy)@.sent == copy@.sent
                    &&& takes(copy@, Event::NotSent, final(copy)@)
                }
            },
{
}

/// Sending what a copy hands out moves just those bytes from the buffer to what
/// has been sent: there is then nothing to send, and no byte is sent twice.
pub proof fn law_a_piece_is_sent_once()
    ensures
        forall|
            asked: &mut CopyIn,
            piece: &[u8],
            told: &mut CopyIn,
            result: Result<(), Error>,
            again: &mut CopyIn,
            rest: Option<&[u8]>,
        |
            {
                &&& #[trigger] call_ensures(CopyIn::flush, (asked,), Some(piece))
                &&& told@ == final(asked)@
                &&& #[trigger] call_ensures(CopyIn::flushed, (told, Ok(())), result)
                &&& again@ == final(told)@
                &&& #[trigger] call_ensures(CopyIn::flush, (again,), rest)
            } ==> {
                &&& again@.sent == asked@.sent + piece@
                &&& rest is None
            },
{
}

/// Sending what could not be sent is asked for again, unchanged.
pub proof fn law_an_unsent_piece_is_handed_out_again(err: DriverError)
    ensures
        forall|
            asked: &mut CopyIn,
            piece: Option<&[u8]>,
            told: &mut CopyIn,
            result: Result<(), Error>,
            again: &mut CopyIn,
            rest: Option<&[u8]>,
        |
            {
                &&& #[trigger] call_ensures(CopyIn::flush, (asked,), piece)
                &&& told@ == final(asked)@
                &&& #[trigger] call_ensures(CopyIn::flushed, (told, Err(err)), result)
                &&& again@ == final(told)@
                &&& #[trigger] call_ensures(CopyIn::flush, (again,), rest)
            } ==> {
                &&& again@.sent == asked@.sent
                &&& piece is Some <==> rest is Some
                &&& piece is Some ==> rest->Some_0@ == piece->Some_0@
            },
{
}

/// A copy that is finished has what it had buffered still to send, with two bytes
/// of ones behind it; finishing sends nothing.
pub proof fn law_finish(copy: CopyIn, closing: Closing)
    requires
        call_ensures(CopyIn::finish, (copy,), closing),
    ensures
        closing@.encoder.bytes == copy@.encoder.bytes + seq![0xffu8, 0xffu8],
        closing@.sent == copy@.sent,
        closing@.flush_at == copy@.flush_at,
        closing@.encoder.rows == copy@.encoder.rows,
        closing@.encoder.columns == copy@.encoder.columns,
        closing@.encoder.deferred == copy@.encoder.deferred,
{
    law_a_trailer_is_two_bytes();
}

/// A closing copy hands out all it has left, and asking changes nothing.
pub proof fn law_closing_flush()
    ensures
        forall|closing: &mut Closing, bytes: &[u8]|
            #[trigger] call_ensures(Closing::flush, (closing,), bytes) ==> {
                &&& bytes@ == closing@.encoder.bytes
                &&& final(closing)@ == closing@
            },
{
}

/// How sending the last bytes went is passed on, as is how an abort did.
pub proof fn law_the_end_is_reported(
    closing: Closing,
    copy: CopyIn,
    outcome: Result<(), DriverError>,
    result: Result<(), Error>,
)
    requires
        call_ensures(Closing::flushed, (closing, outcome), result) || call_ensures(
            CopyIn::abort,
            (copy, outcome),
            result,
        ),
    ensures
        outcome is Ok ==> result is Ok,
        outcome matches Err(err) ==> result == Err::<(), Error>(Error::Sqlx(err)),
{
}

/// The last bytes of a copy are what it had buffered and two bytes of ones,
/// however many rows that is.
pub proof fn law_the_last_piece_is_the_rest(copy: CopyIn, closing: Closing)
    requires
        call_ensures(CopyIn::finish, (copy,), closing),
    ensures
        forall|asked: &mut Closing, piece: &[u8]|
            asked@ == closing@ && #[trigger] call_ensures(Closing::flush, (asked,), piece)
                ==> piece@ == copy@.encoder.bytes + seq![0xffu8, 0xffu8],
{
    law_finish(copy, closing);
}

/// All that a copy sends, its last piece with it, is the header, the rows that
/// were kept and the trailer.
pub proof fn law_all_that_is_sent(
    columns: nat,
    states: Seq<CopyState>,
    events: Seq<Event>,
    copy: CopyIn,
    closing: Closing,
)
    requires
        is_run(columns, states, events),
        copy@ == states.last(),
        call_ensures(CopyIn::finish, (copy,), closing),
    ensures
        forall|asked: &mut Closing, piece: &[u8]|
            asked@ == closing@ && #[trigger] call_ensures(Closing::flush, (asked,), piece)
                ==> copy@.sent + piece@ == seq![
                0x50u8, 0x47u8, 0x43u8, 0x4fu8, 0x50u8, 0x59u8, 0x0au8, 0xffu8, 0x0du8, 0x0au8,
                0u8, 0u8, 0u8, 0u8, 0u8, 0u8, 0u8, 0u8, 0u8,
            ] + rows_bytes(columns, kept_rows(events)) + seq![0xffu8, 0xffu8],
{
    law_a_copy_writes_the_rows_it_keeps(columns, states, events);
    law_a_header_is_the_signature_and_zeros();
    law_finish(copy, closing);
    assert forall|asked: &mut Closing, piece: &[u8]|
        asked@ == closing@ && #[trigger] call_ensures(
            Closing::flush,
            (asked,),
            piece,
        ) implies copy@.sent + piece@ == header() + rows_bytes(columns, kept_rows(events)) + seq![
        0xffu8,
        0xffu8,
    ] by {
        assert(copy@.sent + piece@ == copy@.stream() + seq![0xffu8, 0xffu8]) by {
            assert(copy@.stream() == copy@.sent + copy@.encoder.bytes);
        }
    }
}

/// A copy begins with the header buffered, nothing sent, and a megabyte as the
/// size at which to send, whatever its columns. A send moves the buffer, all of
/// it, to what has been sent. Sealing adds two bytes of ones to the buffer, and
/// sends nothing.
pub proof fn law_the_states_of_a_copy(columns: nat, copy: CopyState)
    ensures
        CopyState::begun(columns).flush_at == 0x10_0000,
        CopyState::begun(columns).sent.len() == 0,
        CopyState::begun(columns).encoder.bytes == header(),
        CopyState::begun(columns).encoder.columns == columns,
        CopyState::begun(columns).encoder.rows == 0,
        CopyState::begun(columns).encoder.deferred == 0,
        copy.after_send().sent == copy.sent + copy.encoder.bytes,
        copy.after_send().encoder.bytes.len() == 0,
        copy.after_send().encoder.deferred == 0,
        copy.after_send().encoder.rows == copy.encoder.rows,
        copy.after_send().encoder.columns == copy.encoder.columns,
        copy.after_send().flush_at == copy.flush_at,
        copy.sealed().encoder.bytes == copy.encoder.bytes + seq![0xffu8, 0xffu8],
        copy.sealed().sent == copy.sent,
        copy.sealed().encoder.deferred == copy.encoder.deferred,
        copy.sealed().encoder.rows == copy.encoder.rows,
        copy.sealed().encoder.columns == copy.encoder.columns,
        copy.sealed().flush_at == copy.flush_at,
{
    law_a_trailer_is_two_bytes();
    assert(1usize << 20 == 0x10_0000usize) by (bit_vector);
}

/// What a copy has written is what it has sent, and what it has buffered behind.
pub proof fn law_a_stream_is_sent_or_buffered(copy: CopyState)
    ensures
        copy.stream() == copy.sent + copy.encoder.bytes,
{
}

/// A row that is kept goes behind the others. One that is not, and whatever else
/// happens, leaves the rows as they are.
pub proof fn law_what_is_kept(events: Seq<Event>, event: Event)
    ensures
        kept_rows(Seq::empty()) == Seq::<Seq<Field>>::empty(),
        kept_rows(events.push(event)) == match event {
            Event::Row { fields, row, succeeded } => if succeeded && row.written == row.columns {
                kept_rows(events).push(fields)
            } else {
                kept_rows(events)
            },
            _ => kept_rows(events),
        },
{
    assert(events.push(event).drop_last() == events);
}

/// A copy that has begun is a run, and stays one with each event.
pub proof fn law_a_run_goes_on(
    columns: nat,
    states: Seq<CopyState>,
    events: Seq<Event>,
    event: Event,
    after: CopyState,
)
    ensures
        columns <= 0x7fff ==> is_run(columns, seq![CopyState::begun(columns)], Seq::empty()),
        is_run(columns, states, events) && takes(states.last(), event, after) ==> is_run(
            columns,
            states.push(after),
            events.push(event),
        ),
{
    if is_run(columns, states, events) && takes(states.last(), event, after) {
        let (more, all) = (states.push(after), events.push(event));
        assert forall|i: int| 0 <= i < all.len() implies takes(
            more[i],
            #[trigger] all[i],
            more[i + 1],
        ) by {
            if i < events.len() {
                assert(takes(states[i], events[i], states[i + 1]));
            }
        }
    }
}

/// The fields of a row are those pushed into it while it had room that are null or
/// not too long, and whose encodings did not fail.
pub proof fn law_what_is_pushed(row: RowState, pushes: Seq<Push>, push: Push)
    ensures
        after_pushes(row, Seq::empty()) == row,
        after_pushes(row, pushes.push(push)) == after_push(after_pushes(row, pushes), push),
        pushed_fields(row, Seq::empty()) == Seq::<Field>::empty(),
        pushed_fields(row, pushes.push(push)) == match pushed_field(
            after_pushes(row, pushes),
            push,
        ) {
            Some(field) => pushed_fields(row, pushes).push(field),
            None => pushed_fields(row, pushes),
        },
        row.written >= row.columns ==> pushed_field(row, push) is None,
        row.written < row.columns ==> match push {
            Push::Null => pushed_field(row, push) == Some(None::<Seq<u8>>),
            Push::Raw { bytes } => pushed_field(row, push) == if bytes.len() <= 0x7fff_ffff {
                Some(Some(bytes))
            } else {
                None
            },
            Push::Value { outcome: Ok(IsNull::Yes), .. } => pushed_field(row, push) == Some(
                None::<Seq<u8>>,
            ),
            Push::Value { outcome: Ok(IsNull::No), appended, .. } => pushed_field(row, push)
                == if appended.len() <= 0x7fff_ffff {
                Some(Some(appended))
            } else {
                None
            },
            Push::Value { outcome: Err(_), .. } => pushed_field(row, push) is None,
        },
{
    assert(pushes.push(push).drop_last() == pushes);
}

} // verus!
