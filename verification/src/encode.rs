//! Rows, and the payload they add up to.
use crate::buffer::{as_bytes, as_bytes_mut, capacity, contents, deferred, empty_buffer};
use crate::error::Error;
use crate::format::{
    be16, be32, count_bytes, field_bytes, header, length_bytes, trailer, Field, HEADER_FIELDS,
    NULL_FIELD, PREFIX_LEN, SIGNATURE, TRAILER,
};
use core::marker::PhantomData;
use sqlx::postgres::PgArgumentBuffer;
use sqlx::Error as DriverError;
use vstd::prelude::*;

verus! {

/// Whether an encoded value turned out to be null.
#[derive(Debug, Clone, Copy, PartialEq, Eq)]
pub enum IsNull {
    /// The value is null, and has no data.
    Yes,
    /// The value is not null. It may still have no data.
    No,
}

/// The first `len` bytes of `bytes`, or all of them if there are not that many.
pub open spec fn truncated(bytes: Seq<u8>, len: int) -> Seq<u8> {
    if len <= bytes.len() {
        bytes.take(len)
    } else {
        bytes
    }
}

/// A row, abstractly.
#[verifier::ext_equal]
pub struct RowState {
    /// What has been buffered, up to and with the fields written so far.
    pub bytes: Seq<u8>,
    /// How many places in the buffer the driver means to patch.
    pub deferred: nat,
    /// How many columns the copy has.
    pub columns: nat,
    /// How many fields have been written.
    pub written: nat,
    /// Which row of the copy this is.
    pub index: u64,
}

impl RowState {
    /// The row with one more field.
    pub open spec fn push(self, field: Field) -> RowState {
        RowState { bytes: self.bytes + field_bytes(field), written: self.written + 1, ..self }
    }

    /// The row with as many more fields, in order.
    pub open spec fn push_all(self, fields: Seq<Field>) -> RowState
        decreases fields.len(),
    {
        if fields.len() == 0 {
            self
        } else {
            self.push_all(fields.drop_last()).push(fields.last())
        }
    }

    /// The row once a value has been pushed whose encoding left `encoded` in the
    /// buffer and `deferred` places to patch, and returned `outcome`. Only a value
    /// that makes a field is counted.
    pub open spec fn after_value(
        self,
        encoded: Seq<u8>,
        deferred: nat,
        outcome: Result<IsNull, DriverError>,
    ) -> RowState {
        let start = self.bytes.len() as int;
        RowState {
            bytes: settled_bytes(start, encoded, outcome),
            deferred,
            written: if value_fits(start, encoded, outcome) {
                self.written + 1
            } else {
                self.written
            },
            ..self
        }
    }

    /// The row has as many fields as the copy has columns.
    pub open spec fn is_complete(self) -> bool {
        self.written == self.columns
    }

    /// The error for a row that wrote, or was about to write, `written` fields.
    pub open spec fn field_count(self, written: nat) -> Error {
        Error::FieldCount {
            row: self.index,
            columns: self.columns as usize,
            written: written as usize,
        }
    }
}

/// A value whose prefix stands at `start` makes a field, given that its encoding
/// left `encoded` in the buffer and returned `outcome`: it is null, or a length
/// prefix can announce it.
pub open spec fn value_fits(
    start: int,
    encoded: Seq<u8>,
    outcome: Result<IsNull, DriverError>,
) -> bool {
    match outcome {
        Ok(IsNull::Yes) => true,
        Ok(IsNull::No) => 0 <= encoded.len() - start - PREFIX_LEN <= i32::MAX,
        Err(_) => false,
    }
}

/// What is left in the buffer of a value whose prefix stands at `start`, once its
/// encoding has run and left `encoded` there.
///
/// A value that fits has its length written over the prefix. A null loses
/// whatever was written after the prefix, and a value that failed is cut away
/// whole.
pub open spec fn settled_bytes(
    start: int,
    encoded: Seq<u8>,
    outcome: Result<IsNull, DriverError>,
) -> Seq<u8> {
    if !value_fits(start, encoded, outcome) {
        truncated(encoded, start)
    } else if outcome == Ok::<IsNull, DriverError>(IsNull::Yes) {
        truncated(encoded, start + PREFIX_LEN)
    } else {
        encoded.take(start) + be32(encoded.len() - start - PREFIX_LEN) + encoded.skip(
            start + PREFIX_LEN,
        )
    }
}

/// How a value ends, given how its encoding did.
///
/// The row was `before` and is `after`. The encoding left `encoded` in the
/// buffer and `deferred` places to patch, and returned `outcome`; `pg_type`
/// names the value's type, and `result` is what the value comes to.
pub open spec fn value_settled<N: FnOnce() -> String>(
    before: RowState,
    encoded: Seq<u8>,
    deferred: nat,
    outcome: Result<IsNull, DriverError>,
    pg_type: N,
    after: RowState,
    result: Result<(), Error>,
) -> bool {
    let start = before.bytes.len() as int;
    let len = encoded.len() - start - PREFIX_LEN;
    &&& after == before.after_value(encoded, deferred, outcome)
    &&& result is Ok <==> value_fits(start, encoded, outcome)
    &&& match outcome {
        Ok(_) => result is Err ==> {
            // A buffer cut short of the prefix has no length to report; the
            // subtraction is left to wrap.
            &&& result matches Err(Error::FieldSize { column, len: reported })
            &&& column == before.written
            &&& reported == if len < 0 {
                len + usize::MAX + 1
            } else {
                len
            }
        },
        Err(error) => {
            &&& result matches Err(Error::Encode { column, pg_type: name, source })
            &&& column == before.written
            &&& call_ensures(pg_type, (), name)
            &&& source == error
        },
    }
}

/// A row being filled in, field by field in column order.
///
/// A field that fails is not counted: its column is still to be written.
#[derive(Debug)]
pub struct Row<'a> {
    /// The payload so far.
    buf: PgArgumentBuffer,
    columns: u16,
    written: u16,
    /// Which row of the copy this is, for error messages.
    index: u64,
    /// The encoder the row belongs to. A closure gets its row under a lifetime
    /// of its own, so that rows of two encoders cannot be exchanged.
    encoder: PhantomData<&'a mut PgArgumentBuffer>,
}

impl View for Row<'_> {
    type V = RowState;

    closed spec fn view(&self) -> RowState {
        RowState {
            bytes: contents(self.buf),
            deferred: deferred(self.buf),
            columns: self.columns as nat,
            written: self.written as nat,
            index: self.index,
        }
    }
}

impl Row<'_> {
    /// Both counts of a row fit in 16 bits, so an error states them exactly.
    pub proof fn lemma_counts_fit(&self)
        ensures
            self@.columns <= u16::MAX,
            self@.written <= u16::MAX,
    {
    }

    /// Append a null field.
    ///
    /// # Errors
    ///
    /// [`Error::FieldCount`] if the row already holds every column.
    pub fn push_null(&mut self) -> (outcome: Result<(), Error>)
        ensures
            old(self)@.written < old(self)@.columns ==> {
                &&& outcome is Ok
                &&& final(self)@ == old(self)@.push(None)
            },
            old(self)@.written >= old(self)@.columns ==> {
                &&& outcome == Err::<(), Error>(old(self)@.field_count(old(self)@.written + 1))
                &&& final(self)@ == old(self)@
            },
            old(self)@.written <= old(self)@.columns ==> final(self)@.written
                <= final(self)@.columns,
    {
        match self.open() {
            Ok(_) => {},
            Err(err) => return Err(err),
        }
        as_bytes_mut(&mut self.buf).extend_from_slice(&NULL_FIELD);
        assert(NULL_FIELD@ == be32(-1));
        self.written += 1;
        Ok(())
    }

    /// Append a value, written into the buffer by `encode`.
    ///
    /// `encode` appends the value's binary encoding to the buffer it is given
    /// and says whether the value was null. `pg_type` names the value's type,
    /// and is only asked if `encode` fails.
    ///
    /// # Errors
    ///
    /// [`Error::Encode`] if the value refuses to encode, [`Error::FieldSize`]
    /// if it outgrows a length prefix, or [`Error::FieldCount`] past the last.
    pub fn push_value<F, N>(&mut self, encode: F, pg_type: N) -> (outcome: Result<(), Error>) where
        F: FnOnce(&mut PgArgumentBuffer) -> Result<IsNull, DriverError>,
        N: FnOnce() -> String,

        requires
            old(self)@.written < old(self)@.columns ==> forall|buf: &mut PgArgumentBuffer|
                {
                    &&& contents(*buf) == old(self)@.push(None).bytes
                    &&& deferred(*buf) == old(self)@.deferred
                } ==> #[trigger] call_requires(encode, (buf,)),
            old(self)@.written < old(self)@.columns ==> forall|
                buf: &mut PgArgumentBuffer,
                err: DriverError,
            |
                {
                    &&& contents(*buf) == old(self)@.push(None).bytes
                    &&& deferred(*buf) == old(self)@.deferred
                    &&& #[trigger] call_ensures(encode, (buf,), Err(err))
                } ==> call_requires(pg_type, ()),
        ensures
            old(self)@.written < old(self)@.columns ==> exists|
                buf: &mut PgArgumentBuffer,
                encoded: Result<IsNull, DriverError>,
            |
                {
                    &&& contents(*buf) == old(self)@.push(None).bytes
                    &&& deferred(*buf) == old(self)@.deferred
                    &&& #[trigger] call_ensures(encode, (buf,), encoded)
                    &&& encoded matches Err(error) ==> {
                        &&& outcome matches Err(Error::Encode { column, pg_type: name, source })
                        &&& column == old(self)@.written
                        &&& call_ensures(pg_type, (), name)
                        &&& source == error
                    }
                    &&& value_settled(
                        old(self)@,
                        contents(*final(buf)),
                        deferred(*final(buf)),
                        encoded,
                        pg_type,
                        final(self)@,
                        outcome,
                    )
                },
            old(self)@.written >= old(self)@.columns ==> {
                &&& outcome == Err::<(), Error>(old(self)@.field_count(old(self)@.written + 1))
                &&& final(self)@ == old(self)@
            },
            old(self)@.written <= old(self)@.columns ==> final(self)@.written
                <= final(self)@.columns,
    {
        let column = match self.open() {
            Ok(column) => column,
            Err(err) => return Err(err),
        };
        // Write the length as -1 up front. If the value turns out to be null
        // that is already correct; otherwise it is overwritten below.
        let start = as_bytes(&self.buf).len();
        as_bytes_mut(&mut self.buf).extend_from_slice(&NULL_FIELD);
        assert(NULL_FIELD@ == be32(-1));
        let body = as_bytes(&self.buf).len();
        assert(contents(self.buf) == old(self)@.push(None).bytes);
        let encoded = encode(&mut self.buf);
        match encoded {
            // A null must not have written anything, and -1 is already the
            // right length.
            Ok(IsNull::Yes) => {
                as_bytes_mut(&mut self.buf).truncate(body);
                self.written += 1;
                Ok(())
            },
            Ok(IsNull::No) => {
                let end = as_bytes(&self.buf).len();
                if end < body {
                    // Only appends should have happened since the prefix was
                    // written. Leaving the -1 would silently store a null, so
                    // fail the row instead.
                    return Err(self.lost_prefix(start, column, end.wrapping_sub(body)));
                }
                let written = end - body;
                let Ok(len) = i32::try_from(written) else {
                    as_bytes_mut(&mut self.buf).truncate(start);
                    return Err(Error::FieldSize { column, len: written });
                };
                overwrite(as_bytes_mut(&mut self.buf), start, length_bytes(len));
                self.written += 1;
                Ok(())
            },
            Err(source) => {
                as_bytes_mut(&mut self.buf).truncate(start);
                Err(Error::Encode { column, pg_type: pg_type(), source })
            },
        }
    }

    /// Append a field from bytes that are already encoded.
    ///
    /// # Errors
    ///
    /// [`Error::FieldSize`] if `bytes` is larger than a length prefix holds,
    /// and [`Error::FieldCount`] if the row already holds every column.
    pub fn push_raw(&mut self, bytes: &[u8]) -> (outcome: Result<(), Error>)
        ensures
            old(self)@.written < old(self)@.columns && bytes@.len() <= i32::MAX ==> {
                &&& outcome is Ok
                &&& final(self)@ == old(self)@.push(Some(bytes@))
            },
            old(self)@.written < old(self)@.columns && bytes@.len() > i32::MAX ==> {
                &&& outcome matches Err(Error::FieldSize { column, len })
                &&& column == old(self)@.written
                &&& len == bytes@.len()
                &&& final(self)@ == old(self)@
            },
            old(self)@.written >= old(self)@.columns ==> {
                &&& outcome == Err::<(), Error>(old(self)@.field_count(old(self)@.written + 1))
                &&& final(self)@ == old(self)@
            },
            old(self)@.written <= old(self)@.columns ==> final(self)@.written
                <= final(self)@.columns,
    {
        let column = match self.open() {
            Ok(column) => column,
            Err(err) => return Err(err),
        };
        match push_field(as_bytes_mut(&mut self.buf), bytes, column) {
            Ok(()) => {
                self.written += 1;
                Ok(())
            },
            Err(err) => Err(err),
        }
    }

    /// Fail a field whose length prefix has gone missing.
    fn lost_prefix(&mut self, start: usize, column: usize, len: usize) -> (error: Error)
        ensures
            error == (Error::FieldSize { column, len }),
            final(self)@ == (RowState {
                bytes: truncated(old(self)@.bytes, start as int),
                ..old(self)@
            }),
    {
        as_bytes_mut(&mut self.buf).truncate(start);
        Error::FieldSize { column, len }
    }

    /// Start the next field, returning which column it is. The field is counted
    /// once it has been written, so one that fails leaves its column open.
    fn open(&self) -> (outcome: Result<usize, Error>)
        ensures
            self@.written < self@.columns ==> outcome == Ok::<usize, Error>(
                self@.written as usize,
            ),
            self@.written >= self@.columns ==> outcome == Err::<usize, Error>(
                self@.field_count(self@.written + 1),
            ),
    {
        if self.written >= self.columns {
            return Err(self.field_count(self.written as usize + 1));
        }
        Ok(self.written as usize)
    }

    /// Check that the row is complete. Only the field count needs checking; a
    /// binary row states its own length up front.
    fn finish(&self) -> (outcome: Result<(), Error>)
        ensures
            self@.is_complete() ==> outcome is Ok,
            !self@.is_complete() ==> outcome == Err::<(), Error>(
                self@.field_count(self@.written),
            ),
    {
        if self.written != self.columns {
            return Err(self.field_count(self.written as usize));
        }
        Ok(())
    }

    fn field_count(&self, written: usize) -> (error: Error)
        ensures
            error == self@.field_count(written as nat),
    {
        Error::FieldCount { row: self.index, columns: self.columns as usize, written }
    }
}

/// Write `prefix` over the bytes of `buf` that begin at `start`.
fn overwrite(buf: &mut Vec<u8>, start: usize, prefix: [u8; 4])
    requires
        start + PREFIX_LEN <= old(buf).len(),
    ensures
        final(buf)@ == old(buf)@.take(start as int) + prefix@ + old(buf)@.skip(start + PREFIX_LEN),
{
    buf[start] = prefix[0];
    buf[start + 1] = prefix[1];
    buf[start + 2] = prefix[2];
    buf[start + 3] = prefix[3];
}

/// Append a field: its length, then its encoded bytes.
///
/// # Errors
///
/// [`Error::FieldSize`] if `bytes` is larger than a length prefix holds.
pub fn push_field(buf: &mut Vec<u8>, bytes: &[u8], column: usize) -> (outcome: Result<(), Error>)
    ensures
        bytes@.len() <= i32::MAX ==> {
            &&& outcome is Ok
            &&& final(buf)@ == old(buf)@ + field_bytes(Some(bytes@))
        },
        bytes@.len() > i32::MAX ==> {
            &&& outcome matches Err(Error::FieldSize { column: at, len })
            &&& at == column
            &&& len == bytes@.len()
            &&& final(buf)@ == old(buf)@
        },
{
    let Ok(len) = i32::try_from(bytes.len()) else {
        return Err(Error::FieldSize { column, len: bytes.len() });
    };
    buf.extend_from_slice(&length_bytes(len));
    buf.extend_from_slice(bytes);
    Ok(())
}

/// A payload under construction, abstractly.
#[verifier::ext_equal]
pub struct EncoderState {
    /// What has been written and not yet taken away by a reset.
    pub bytes: Seq<u8>,
    /// How many places in the buffer the driver means to patch.
    pub deferred: nat,
    /// How many columns every row has.
    pub columns: nat,
    /// How many rows have been written.
    pub rows: u64,
}

impl EncoderState {
    /// The next row, as its closure is given it: the field count is in the
    /// buffer, and no field is.
    pub open spec fn next_row(self) -> RowState {
        RowState {
            bytes: self.bytes + be16(self.columns as int),
            deferred: self.deferred,
            columns: self.columns,
            written: 0,
            index: self.rows,
        }
    }

    /// The payload once a row has ended. The row was left as `row`, and
    /// `succeeded` says whether its closure did. A complete row stays; any other
    /// is truncated back out of the buffer.
    pub open spec fn after_row(self, row: RowState, succeeded: bool) -> EncoderState {
        if succeeded && row.is_complete() {
            EncoderState {
                bytes: row.bytes,
                deferred: row.deferred,
                rows: (self.rows + 1) as u64,
                ..self
            }
        } else {
            EncoderState {
                bytes: truncated(row.bytes, self.bytes.len() as int),
                deferred: row.deferred,
                ..self
            }
        }
    }
}

/// How a row ends, given how its closure did.
///
/// The payload was `before` and is `after`. The closure left the row as `row`
/// and returned `outcome`, and `result` is what the row comes to: the closure's
/// error if it failed, and a field-count error if it left the row short.
pub open spec fn row_settled<E: From<Error>>(
    before: EncoderState,
    row: RowState,
    outcome: Result<(), E>,
    after: EncoderState,
    result: Result<(), E>,
) -> bool {
    &&& after == before.after_row(row, outcome is Ok)
    &&& match outcome {
        Ok(_) if row.is_complete() => result is Ok,
        Ok(_) => {
            &&& result is Err
            &&& call_ensures(
                <E as From<Error>>::from,
                (row.field_count(row.written),),
                result->Err_0,
            )
        },
        Err(err) => result == Err::<(), E>(err),
    }
}

/// The payload a copy builds, row by row.
///
/// Rows go in via [`write_row`](Self::write_row), and the copy reads them out of
/// [`buffer`](Self::buffer) when it sends.
#[derive(Debug)]
pub struct Encoder {
    /// The row being filled in, or the last that was, with the payload so far.
    /// It stays here while a closure fills it in, so that the payload outlives
    /// a closure that panics.
    ///
    /// The payload is a `PgArgumentBuffer` so values can be encoded straight
    /// into it. A field's length is only known after the value is written, but
    /// the format puts it first, so the four bytes are written as a null and
    /// overwritten afterwards.
    row: Row<'static>,
    columns: u16,
    /// The column count every row opens with, pre-converted: it is the same
    /// for every row.
    count: [u8; 2],
    rows: u64,
}

impl View for Encoder {
    type V = EncoderState;

    closed spec fn view(&self) -> EncoderState {
        EncoderState {
            bytes: contents(self.row.buf),
            deferred: deferred(self.row.buf),
            columns: self.columns as nat,
            rows: self.rows,
        }
    }
}

impl Encoder {
    /// The count every row opens with is that of the columns, and a row can
    /// state it.
    pub closed spec fn well_formed(&self) -> bool {
        &&& self.columns <= i16::MAX
        &&& self.count@ == be16(self.columns as int)
    }

    /// A row can state how many columns there are.
    pub proof fn lemma_columns_fit(&self)
        requires
            self.well_formed(),
        ensures
            self@.columns <= i16::MAX,
    {
    }

    /// A payload holding just the header, for a copy of `columns` columns.
    ///
    /// # Errors
    ///
    /// [`Error::ColumnLimit`] if a row cannot express that many fields.
    pub fn new(columns: usize) -> (outcome: Result<Self, Error>)
        ensures
            columns <= i16::MAX ==> {
                &&& outcome is Ok
                &&& outcome->Ok_0.well_formed()
                &&& outcome->Ok_0@ == (EncoderState {
                    bytes: header(),
                    deferred: 0,
                    columns: columns as nat,
                    rows: 0,
                })
            },
            columns > i16::MAX ==> outcome == Err::<Self, Error>(Error::ColumnLimit { columns }),
    {
        let Ok(count) = i16::try_from(columns) else {
            return Err(Error::ColumnLimit { columns });
        };
        let mut buf = empty_buffer();
        let bytes = as_bytes_mut(&mut buf);
        bytes.reserve(SIGNATURE.len() + HEADER_FIELDS.len());
        bytes.extend_from_slice(&SIGNATURE);
        bytes.extend_from_slice(&HEADER_FIELDS);
        assert(HEADER_FIELDS@ == be32(0) + be32(0));
        assert(contents(buf) == header());
        let columns = count as u16;
        let row = Row { buf, columns, written: 0, index: 0, encoder: PhantomData };
        Ok(Encoder { row, columns, count: count_bytes(count), rows: 0 })
    }

    /// Append a row, filled in by `write`.
    ///
    /// A row that writes the wrong number of fields, or fails partway, is
    /// truncated back out of the buffer.
    ///
    /// # Errors
    ///
    /// Whatever `write` returns, or [`Error::FieldCount`].
    pub fn write_row<E, F>(&mut self, write: F) -> (result: Result<(), E>) where
        E: From<Error>,
        F: FnOnce(&mut Row<'_>) -> Result<(), E>,

        requires
            old(self).well_formed(),
            old(self)@.rows < u64::MAX,
            forall|row: &mut Row|
                row@ == old(self)@.next_row() ==> #[trigger] call_requires(write, (row,)),
        ensures
            final(self).well_formed(),
            exists|row: &mut Row, outcome: Result<(), E>|
                {
                    &&& row@ == old(self)@.next_row()
                    &&& #[trigger] call_ensures(write, (row,), outcome)
                    &&& outcome matches Err(err) ==> result == Err::<(), E>(err)
                    &&& row_settled(old(self)@, final(row)@, outcome, final(self)@, result)
                },
    {
        let start = as_bytes(&self.row.buf).len();
        as_bytes_mut(&mut self.row.buf).extend_from_slice(&self.count);
        self.row.columns = self.columns;
        self.row.written = 0;
        self.row.index = self.rows;
        assert(self.row@ == old(self)@.next_row());
        let outcome = write(&mut self.row);
        let result = match outcome {
            Ok(()) => match self.row.finish() {
                Ok(()) => Ok(()),
                Err(err) => Err(E::from(err)),
            },
            Err(err) => Err(err),
        };
        match result {
            Ok(()) => {
                self.rows += 1;
                Ok(())
            },
            Err(err) => {
                as_bytes_mut(&mut self.row.buf).truncate(start);
                Err(err)
            },
        }
    }

    /// How many rows have been written.
    pub fn rows(&self) -> (rows: u64)
        ensures
            rows == self@.rows,
    {
        self.rows
    }

    /// The bytes written so far. A copy sends these, then calls
    /// [`reset`](Self::reset).
    pub fn buffer(&mut self) -> (bytes: &mut Vec<u8>)
        ensures
            bytes@ == old(self)@.bytes,
            final(self)@ == (EncoderState { bytes: final(bytes)@, ..old(self)@ }),
            old(self).well_formed() ==> final(self).well_formed(),
    {
        as_bytes_mut(&mut self.row.buf)
    }

    /// Replace the buffer with an empty one of the same capacity.
    ///
    /// Must be a new buffer, not a cleared one. For each type it knows by name
    /// rather than OID, the driver records an offset to patch later against a
    /// prepared statement's parameters. A copy has no parameters, so those
    /// entries are never read, and clearing the bytes would leave them. They
    /// would otherwise grow for the whole copy.
    ///
    /// The new buffer holds at least as much as the old one did before it
    /// reallocates: `Vec::reserve` sees to that. What has been allocated is no
    /// part of the view, so no clause says so.
    pub fn reset(&mut self)
        ensures
            final(self)@ == (EncoderState { bytes: Seq::empty(), deferred: 0, ..old(self)@ }),
            old(self).well_formed() ==> final(self).well_formed(),
    {
        let capacity = capacity(as_bytes(&self.row.buf));
        self.row.buf = empty_buffer();
        as_bytes_mut(&mut self.row.buf).reserve(capacity);
    }

    /// Append the trailer that ends the payload. Called once, before the
    /// final send.
    pub fn seal(&mut self)
        ensures
            final(self)@ == (EncoderState { bytes: old(self)@.bytes + trailer(), ..old(self)@ }),
            old(self).well_formed() ==> final(self).well_formed(),
    {
        as_bytes_mut(&mut self.row.buf).extend_from_slice(&TRAILER);
        assert(TRAILER@ == be16(-1));
    }
}

} // verus!
