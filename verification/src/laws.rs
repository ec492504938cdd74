//! What holds of rows, payloads and whole copies.
use crate::copy_in::CopyState;
use crate::encode::{row_settled, value_settled, EncoderState, IsNull, RowState};
use crate::error::Error;
use crate::format::{
    be16, be32, field_bytes, field_fits, fields_bytes, header, payload, read16, read32,
    read_field, read_fields, read_payload, read_rows, row_bytes, row_fits, rows_bytes, trailer,
    Field, PREFIX_LEN,
};
use sqlx::Error as DriverError;
use vstd::prelude::*;

verus! {

/// A 16-bit integer is read back as it was written.
proof fn lemma_read16(n: int, rest: Seq<u8>)
    requires
        i16::MIN <= n <= i16::MAX,
    ensures
        read16(be16(n) + rest) == n,
{
}

/// A 32-bit integer is read back as it was written.
proof fn lemma_read32(n: int, rest: Seq<u8>)
    requires
        i32::MIN <= n <= i32::MAX,
    ensures
        read32(be32(n) + rest) == n,
{
    let (a, b, c) = (n / 0x100_0000, n / 0x1_0000, n / 0x100);
    let bytes = be32(n) + rest;
    assert(c == b * 256 + c % 256);
    assert(b == a * 256 + b % 256);
    assert(-128 <= a <= 127);
    assert(bytes[0] == if a < 0 {
        a + 256
    } else {
        a
    });
    assert(bytes[1] == b % 256);
    assert(bytes[2] == c % 256);
    assert(bytes[3] == n % 256);
}

/// A field is read back as it was written, whatever follows it. In particular a
/// null is told from a value with no bytes.
pub proof fn law_a_field_is_read_back(field: Field, rest: Seq<u8>)
    requires
        field_fits(field),
    ensures
        read_field(field_bytes(field) + rest) == Some((field, rest)),
{
    let bytes = field_bytes(field) + rest;
    match field {
        None => {
            lemma_read32(-1, rest);
            assert(bytes.skip(PREFIX_LEN as int) == rest);
        },
        Some(value) => {
            let len = value.len() as int;
            lemma_read32(len, value + rest);
            assert(bytes == be32(len) + (value + rest));
            let body = bytes.skip(PREFIX_LEN as int);
            assert(body == value + rest);
            assert(body.take(len) == value);
            assert(body.skip(len) == rest);
        },
    }
}

/// Fields are framed from the first as they are from the last.
proof fn lemma_fields_bytes_cons(field: Field, fields: Seq<Field>)
    ensures
        fields_bytes(seq![field] + fields) == field_bytes(field) + fields_bytes(fields),
    decreases fields.len(),
{
    let all = seq![field] + fields;
    if fields.len() == 0 {
        assert(all.drop_last() == fields);
        assert(fields_bytes(fields) == Seq::<u8>::empty());
    } else {
        assert(all.last() == fields.last());
        assert(all.drop_last() == seq![field] + fields.drop_last());
        lemma_fields_bytes_cons(field, fields.drop_last());
    }
}

/// The fields of a row are read back as they were written, whatever follows.
pub proof fn law_fields_are_read_back(fields: Seq<Field>, rest: Seq<u8>)
    requires
        row_fits(fields.len(), fields),
    ensures
        read_fields(fields_bytes(fields) + rest, fields.len()) == Some((fields, rest)),
    decreases fields.len(),
{
    if fields.len() == 0 {
        assert(fields_bytes(fields) + rest == rest);
        assert(fields == Seq::<Field>::empty());
    } else {
        let tail = fields.drop_first();
        assert(fields == seq![fields[0]] + tail);
        lemma_fields_bytes_cons(fields[0], tail);
        assert(fields_bytes(fields) + rest == field_bytes(fields[0]) + (fields_bytes(tail)
            + rest));
        law_a_field_is_read_back(fields[0], fields_bytes(tail) + rest);
        law_fields_are_read_back(tail, rest);
    }
}

/// Rows follow each other from the first as they do from the last.
proof fn lemma_rows_bytes_cons(columns: nat, row: Seq<Field>, rows: Seq<Seq<Field>>)
    ensures
        rows_bytes(columns, seq![row] + rows) == row_bytes(columns, row) + rows_bytes(
            columns,
            rows,
        ),
    decreases rows.len(),
{
    let all = seq![row] + rows;
    if rows.len() == 0 {
        assert(all.drop_last() == rows);
        assert(rows_bytes(columns, rows) == Seq::<u8>::empty());
    } else {
        assert(all.last() == rows.last());
        assert(all.drop_last() == seq![row] + rows.drop_last());
        lemma_rows_bytes_cons(columns, row, rows.drop_last());
    }
}

/// Every row has a field for each column, each of which fits.
pub open spec fn rows_fit(columns: nat, rows: Seq<Seq<Field>>) -> bool {
    forall|i: int| 0 <= i < rows.len() ==> row_fits(columns, #[trigger] rows[i])
}

/// Rows and the trailer behind them are read back as they were written.
proof fn lemma_rows_are_read_back(columns: nat, rows: Seq<Seq<Field>>)
    requires
        columns <= i16::MAX,
        rows_fit(columns, rows),
    ensures
        read_rows(rows_bytes(columns, rows) + trailer()) == Some(rows),
    decreases rows.len(),
{
    let bytes = rows_bytes(columns, rows) + trailer();
    if rows.len() == 0 {
        assert(bytes == be16(-1) + Seq::<u8>::empty());
        lemma_read16(-1, Seq::empty());
        assert(rows == Seq::<Seq<Field>>::empty());
    } else {
        let tail = rows.drop_first();
        let rest = rows_bytes(columns, tail) + trailer();
        assert(rows == seq![rows[0]] + tail);
        lemma_rows_bytes_cons(columns, rows[0], tail);
        assert(bytes == be16(columns as int) + (fields_bytes(rows[0]) + rest));
        lemma_read16(columns as int, fields_bytes(rows[0]) + rest);
        assert(bytes.skip(2) == fields_bytes(rows[0]) + rest);
        assert(row_fits(columns, rows[0]));
        law_fields_are_read_back(rows[0], rest);
        assert forall|i: int| 0 <= i < tail.len() implies row_fits(columns, #[trigger] tail[i]) by {
            assert(tail[i] == rows[i + 1]);
        }
        lemma_rows_are_read_back(columns, tail);
    }
}

/// A payload is read back as the rows it was made from, whatever they are.
pub proof fn law_a_payload_is_read_back(columns: nat, rows: Seq<Seq<Field>>)
    requires
        columns <= i16::MAX,
        rows_fit(columns, rows),
    ensures
        read_payload(payload(columns, rows)) == Some(rows),
{
    let bytes = payload(columns, rows);
    assert(header().is_prefix_of(bytes));
    assert(bytes.skip(header().len() as int) == rows_bytes(columns, rows) + trailer());
    lemma_rows_are_read_back(columns, rows);
}

/// Different rows make different payloads.
pub proof fn law_payloads_tell_rows_apart(
    columns: nat,
    rows: Seq<Seq<Field>>,
    other_columns: nat,
    other_rows: Seq<Seq<Field>>,
)
    requires
        columns <= i16::MAX,
        rows_fit(columns, rows),
        other_columns <= i16::MAX,
        rows_fit(other_columns, other_rows),
        rows != other_rows,
    ensures
        payload(columns, rows) != payload(other_columns, other_rows),
{
    law_a_payload_is_read_back(columns, rows);
    law_a_payload_is_read_back(other_columns, other_rows);
}

/// A value whose encoding appends `value` becomes a field of just those bytes,
/// as if they had been pushed raw.
pub proof fn law_a_value_is_framed<N: FnOnce() -> String>(
    before: RowState,
    value: Seq<u8>,
    deferred: nat,
    pg_type: N,
    after: RowState,
    result: Result<(), Error>,
)
    requires
        value.len() <= i32::MAX,
        value_settled(
            before,
            before.push(None).bytes + value,
            deferred,
            Ok(IsNull::No),
            pg_type,
            after,
            result,
        ),
    ensures
        result is Ok,
        after == (RowState { deferred, ..before.push(Some(value)) }),
{
    let encoded = before.push(None).bytes + value;
    let start = before.bytes.len() as int;
    assert(encoded.take(start) == before.bytes);
    assert(encoded.skip(start + PREFIX_LEN) == value);
    assert(after.bytes == before.push(Some(value)).bytes);
}

/// A value that turns out null becomes a null field, whatever its encoding may
/// have appended.
pub proof fn law_a_null_value_is_a_null_field<N: FnOnce() -> String>(
    before: RowState,
    encoded: Seq<u8>,
    deferred: nat,
    pg_type: N,
    after: RowState,
    result: Result<(), Error>,
)
    requires
        before.push(None).bytes.is_prefix_of(encoded),
        value_settled(before, encoded, deferred, Ok(IsNull::Yes), pg_type, after, result),
    ensures
        result is Ok,
        after == (RowState { deferred, ..before.push(None) }),
{
    assert(after.bytes == before.push(None).bytes);
}

/// A value that fails leaves the row as it was: none of its bytes stay, nor a
/// prefix for them, and it is not counted.
pub proof fn law_a_failed_value_leaves_the_row_alone<N: FnOnce() -> String>(
    before: RowState,
    encoded: Seq<u8>,
    deferred: nat,
    outcome: Result<IsNull, DriverError>,
    pg_type: N,
    after: RowState,
    result: Result<(), Error>,
)
    requires
        before.bytes.is_prefix_of(encoded),
        value_settled(before, encoded, deferred, outcome, pg_type, after, result),
        result is Err,
    ensures
        after == (RowState { deferred, ..before }),
{
    assert(after.bytes == before.bytes);
}

/// Pushing fields one by one adds them to the buffer in order, and nothing else.
pub proof fn law_fields_add_up(row: RowState, fields: Seq<Field>)
    ensures
        row.push_all(fields) == (RowState {
            bytes: row.bytes + fields_bytes(fields),
            written: row.written + fields.len(),
            ..row
        }),
    decreases fields.len(),
{
    if fields.len() == 0 {
        assert(row.bytes + fields_bytes(fields) == row.bytes);
    } else {
        law_fields_add_up(row, fields.drop_last());
        assert(row.push_all(fields).bytes == row.bytes + fields_bytes(fields));
    }
}

/// A row filled in with a field for each column is appended to the payload.
pub proof fn law_a_complete_row_is_appended<E: From<Error>>(
    before: EncoderState,
    fields: Seq<Field>,
    deferred: nat,
    after: EncoderState,
    result: Result<(), E>,
)
    requires
        before.rows < u64::MAX,
        fields.len() == before.columns,
        row_settled(
            before,
            RowState { deferred, ..before.next_row().push_all(fields) },
            Ok(()),
            after,
            result,
        ),
    ensures
        result is Ok,
        after == (EncoderState {
            bytes: before.bytes + row_bytes(before.columns, fields),
            deferred,
            rows: (before.rows + 1) as u64,
            ..before
        }),
{
    law_fields_add_up(before.next_row(), fields);
    assert(after.bytes == before.bytes + row_bytes(before.columns, fields));
}

/// A row that is refused, for whatever reason, leaves nothing behind, as long as
/// it only added to the buffer.
pub proof fn law_a_refused_row_leaves_nothing_behind<E: From<Error>>(
    before: EncoderState,
    row: RowState,
    outcome: Result<(), E>,
    after: EncoderState,
    result: Result<(), E>,
)
    requires
        before.bytes.is_prefix_of(row.bytes),
        row_settled(before, row, outcome, after, result),
        result is Err,
    ensures
        after == (EncoderState { deferred: row.deferred, ..before }),
{
    assert(after.bytes == before.bytes);
}

/// Something a closure does to its row. Whether it went well, and what the
/// closure made of it if it did not, is left open.
pub enum Push {
    /// A null was pushed.
    Null,
    /// Bytes were pushed that were already encoded.
    Raw {
        /// The bytes.
        bytes: Seq<u8>,
    },
    /// A value was pushed whose encoding only appends.
    Value {
        /// What the encoding appended.
        appended: Seq<u8>,
        /// How many places in the buffer the driver then meant to patch.
        deferred: nat,
        /// What the encoding returned.
        outcome: Result<IsNull, DriverError>,
    },
}

/// The row once `push` has happened to it.
pub open spec fn after_push(row: RowState, push: Push) -> RowState {
    if row.written >= row.columns {
        row
    } else {
        match push {
            Push::Null => row.push(None),
            Push::Raw { bytes } => if bytes.len() <= i32::MAX {
                row.push(Some(bytes))
            } else {
                row
            },
            Push::Value { appended, deferred, outcome } => row.after_value(
                row.push(None).bytes + appended,
                deferred,
                outcome,
            ),
        }
    }
}

/// The field `push` adds to the row, unless it is refused.
pub open spec fn pushed_field(row: RowState, push: Push) -> Option<Field> {
    if row.written >= row.columns {
        None
    } else {
        let field: Option<Field> = match push {
            Push::Null => Some(None),
            Push::Raw { bytes } => Some(Some(bytes)),
            Push::Value { outcome: Ok(IsNull::Yes), .. } => Some(None),
            Push::Value { outcome: Ok(IsNull::No), appended, .. } => Some(Some(appended)),
            Push::Value { outcome: Err(_), .. } => None,
        };
        match field {
            Some(field) if field_fits(field) => Some(field),
            _ => None,
        }
    }
}

/// The row once `pushes` have happened to it, in order.
pub open spec fn after_pushes(row: RowState, pushes: Seq<Push>) -> RowState
    decreases pushes.len(),
{
    if pushes.len() == 0 {
        row
    } else {
        after_push(after_pushes(row, pushes.drop_last()), pushes.last())
    }
}

/// The fields `pushes` add to the row, in order, without those that are refused.
pub open spec fn pushed_fields(row: RowState, pushes: Seq<Push>) -> Seq<Field>
    decreases pushes.len(),
{
    if pushes.len() == 0 {
        Seq::empty()
    } else {
        let fields = pushed_fields(row, pushes.drop_last());
        match pushed_field(after_pushes(row, pushes.drop_last()), pushes.last()) {
            Some(field) => fields.push(field),
            None => fields,
        }
    }
}

/// A value whose encoding appends `appended` is a push.
pub proof fn law_a_value_is_a_push<N: FnOnce() -> String>(
    before: RowState,
    appended: Seq<u8>,
    deferred: nat,
    outcome: Result<IsNull, DriverError>,
    pg_type: N,
    after: RowState,
    result: Result<(), Error>,
)
    requires
        before.written < before.columns,
        value_settled(
            before,
            before.push(None).bytes + appended,
            deferred,
            outcome,
            pg_type,
            after,
            result,
        ),
    ensures
        after == after_push(before, Push::Value { appended, deferred, outcome }),
        result is Ok <==> pushed_field(before, Push::Value { appended, deferred, outcome }) is Some,
{
}

/// A push adds one whole field, which fits and is counted, or it leaves the row
/// as it was.
pub proof fn law_a_push_adds_a_field_or_nothing(row: RowState, push: Push)
    ensures
        match pushed_field(row, push) {
            Some(field) => {
                &&& field_fits(field)
                &&& after_push(row, push) == RowState {
                    deferred: after_push(row, push).deferred,
                    ..row.push(field)
                }
            },
            None => after_push(row, push) == (RowState {
                deferred: after_push(row, push).deferred,
                ..row
            }),
        },
{
    let after = after_push(row, push);
    if let Push::Value { appended, deferred, outcome } = push {
        if row.written < row.columns {
            let encoded = row.push(None).bytes + appended;
            let start = row.bytes.len() as int;
            assert(encoded.take(start) == row.bytes);
            assert(encoded.take(start + PREFIX_LEN) == row.push(None).bytes);
            assert(encoded.skip(start + PREFIX_LEN) == appended);
            match pushed_field(row, push) {
                Some(field) => {
                    assert(after.bytes == row.push(field).bytes);
                },
                None => {
                    assert(after.bytes == row.bytes);
                },
            }
        }
    }
}

/// However many pushes are refused in between, a row holds just the fields that
/// were not, each whole and in order; just those are counted; and there are never
/// more of them than columns.
pub proof fn law_a_row_holds_the_fields_pushed(row: RowState, pushes: Seq<Push>)
    ensures
        after_pushes(row, pushes) == (RowState {
            deferred: after_pushes(row, pushes).deferred,
            ..row.push_all(pushed_fields(row, pushes))
        }),
        forall|i: int|
            0 <= i < pushed_fields(row, pushes).len() ==> field_fits(
                #[trigger] pushed_fields(row, pushes)[i],
            ),
        row.written <= row.columns ==> after_pushes(row, pushes).written <= row.columns,
    decreases pushes.len(),
{
    if pushes.len() > 0 {
        let before = after_pushes(row, pushes.drop_last());
        let fields = pushed_fields(row, pushes.drop_last());
        law_a_row_holds_the_fields_pushed(row, pushes.drop_last());
        law_a_push_adds_a_field_or_nothing(before, pushes.last());
        if let Some(field) = pushed_field(before, pushes.last()) {
            assert(fields.push(field).drop_last() == fields);
        }
        law_fields_add_up(row, fields);
    }
}

/// Whatever a closure pushes, and whatever it makes of the pushes that are
/// refused, its row is kept only if it has a field for each column, and is then
/// appended whole; any other row leaves nothing behind.
pub proof fn law_a_row_is_kept_whole_or_not_at_all<E: From<Error>>(
    before: EncoderState,
    pushes: Seq<Push>,
    outcome: Result<(), E>,
    after: EncoderState,
    result: Result<(), E>,
)
    requires
        before.rows < u64::MAX,
        row_settled(before, after_pushes(before.next_row(), pushes), outcome, after, result),
    ensures
        result is Ok <==> {
            &&& outcome is Ok
            &&& pushed_fields(before.next_row(), pushes).len() == before.columns
        },
        result is Ok ==> {
            &&& row_fits(before.columns, pushed_fields(before.next_row(), pushes))
            &&& after == (EncoderState {
                bytes: before.bytes + row_bytes(
                    before.columns,
                    pushed_fields(before.next_row(), pushes),
                ),
                deferred: after.deferred,
                rows: (before.rows + 1) as u64,
                ..before
            })
        },
        result is Err ==> after == (EncoderState { deferred: after.deferred, ..before }),
{
    let row = after_pushes(before.next_row(), pushes);
    let fields = pushed_fields(before.next_row(), pushes);
    law_a_row_holds_the_fields_pushed(before.next_row(), pushes);
    law_fields_add_up(before.next_row(), fields);
    if result is Ok {
        assert(after.bytes == before.bytes + row_bytes(before.columns, fields));
    } else {
        law_a_refused_row_leaves_nothing_behind(before, row, outcome, after, result);
    }
}

/// Something that happens to a copy.
pub enum Event {
    /// A row was written.
    Row {
        /// The fields that were filled in.
        fields: Seq<Field>,
        /// How the row's closure left it.
        row: RowState,
        /// Whether the closure succeeded.
        succeeded: bool,
    },
    /// The buffer was sent.
    Sent,
    /// The buffer could not be sent.
    NotSent,
    /// The buffer size at which to send was changed.
    FlushAt {
        /// The new size.
        bytes: nat,
    },
}

/// `event` takes a copy from `before` to `after`.
///
/// Of a row it is asked that it only added to the buffer and, where its closure
/// succeeded, that `fields` are the fields it holds. Both are so of any row whose
/// values have encodings that only append.
pub open spec fn takes(before: CopyState, event: Event, after: CopyState) -> bool {
    match event {
        Event::Row { fields, row, succeeded } => {
            &&& before.encoder.rows < u64::MAX
            &&& before.encoder.bytes.is_prefix_of(row.bytes)
            &&& succeeded ==> {
                &&& row == RowState {
                    deferred: row.deferred,
                    ..before.encoder.next_row().push_all(fields)
                }
                &&& forall|i: int| 0 <= i < fields.len() ==> field_fits(#[trigger] fields[i])
            }
            &&& after == CopyState { encoder: before.encoder.after_row(row, succeeded), ..before }
        },
        Event::Sent => after == before.after_send(),
        Event::NotSent => after == before,
        Event::FlushAt { bytes } => after == CopyState { flush_at: bytes, ..before },
    }
}

/// A row that is written to a copy is an event of it, if it only added to the
/// buffer and, where its closure succeeded, `fields` are the fields it holds.
pub proof fn law_a_written_row_is_an_event<E: From<Error>>(
    before: CopyState,
    fields: Seq<Field>,
    row: RowState,
    outcome: Result<(), E>,
    after: CopyState,
    result: Result<(), E>,
)
    requires
        before.encoder.rows < u64::MAX,
        before.encoder.bytes.is_prefix_of(row.bytes),
        outcome is Ok ==> {
            &&& row == RowState {
                deferred: row.deferred,
                ..before.encoder.next_row().push_all(fields)
            }
            &&& forall|i: int| 0 <= i < fields.len() ==> field_fits(#[trigger] fields[i])
        },
        row_settled(before.encoder, row, outcome, after.encoder, result),
        after.sent == before.sent,
        after.flush_at == before.flush_at,
    ensures
        takes(before, Event::Row { fields, row, succeeded: outcome is Ok }, after),
{
}

/// A row whose closure does nothing but push, whatever it makes of the pushes
/// that are refused, is an event of the copy, with the fields that were not.
pub proof fn law_a_row_of_pushes_is_an_event<E: From<Error>>(
    before: CopyState,
    pushes: Seq<Push>,
    outcome: Result<(), E>,
    after: CopyState,
    result: Result<(), E>,
)
    requires
        before.encoder.rows < u64::MAX,
        row_settled(
            before.encoder,
            after_pushes(before.encoder.next_row(), pushes),
            outcome,
            after.encoder,
            result,
        ),
        after.sent == before.sent,
        after.flush_at == before.flush_at,
    ensures
        takes(
            before,
            Event::Row {
                fields: pushed_fields(before.encoder.next_row(), pushes),
                row: after_pushes(before.encoder.next_row(), pushes),
                succeeded: outcome is Ok,
            },
            after,
        ),
{
    let start = before.encoder.next_row();
    law_a_row_holds_the_fields_pushed(start, pushes);
    law_fields_add_up(start, pushed_fields(start, pushes));
    law_a_written_row_is_an_event(
        before,
        pushed_fields(start, pushes),
        after_pushes(start, pushes),
        outcome,
        after,
        result,
    );
}

/// The rows that were kept, in order.
pub open spec fn kept_rows(events: Seq<Event>) -> Seq<Seq<Field>>
    decreases events.len(),
{
    if events.len() == 0 {
        Seq::empty()
    } else {
        let rows = kept_rows(events.drop_last());
        match events.last() {
            Event::Row { fields, row, succeeded } if succeeded && row.is_complete() => {
                rows.push(fields)
            },
            _ => rows,
        }
    }
}

/// `states` is what a copy of `columns` columns goes through, from its beginning
/// and by `events`.
pub open spec fn is_run(columns: nat, states: Seq<CopyState>, events: Seq<Event>) -> bool {
    &&& columns <= i16::MAX
    &&& states.len() == events.len() + 1
    &&& states[0] == CopyState::begun(columns)
    &&& forall|i: int|
        0 <= i < events.len() ==> takes(states[i], #[trigger] events[i], states[i + 1])
}

/// Whatever happens to a copy, as long as the encodings of its values only append,
/// what it has written is the header and the rows that were kept, each whole and
/// in order; and the rows are counted.
pub proof fn law_a_copy_writes_the_rows_it_keeps(
    columns: nat,
    states: Seq<CopyState>,
    events: Seq<Event>,
)
    requires
        is_run(columns, states, events),
    ensures
        states.last().stream() == header() + rows_bytes(columns, kept_rows(events)),
        states.last().encoder.columns == columns,
        states.last().encoder.rows == kept_rows(events).len(),
        rows_fit(columns, kept_rows(events)),
    decreases events.len(),
{
    if events.len() == 0 {
        assert(rows_bytes(columns, kept_rows(events)) == Seq::<u8>::empty());
        assert(states.last().stream() == header() + Seq::<u8>::empty());
    } else {
        let last = events.len() - 1;
        let before = states[last];
        let after = states.last();
        assert forall|i: int| 0 <= i < events.drop_last().len() implies takes(
            states.drop_last()[i],
            #[trigger] events.drop_last()[i],
            states.drop_last()[i + 1],
        ) by {
            assert(takes(states[i], events[i], states[i + 1]));
        }
        law_a_copy_writes_the_rows_it_keeps(columns, states.drop_last(), events.drop_last());
        assert(takes(before, events[last], after));
        let rows = kept_rows(events.drop_last());
        match events.last() {
            Event::Row { fields, row, succeeded } => {
                if succeeded && row.is_complete() {
                    law_fields_add_up(before.encoder.next_row(), fields);
                    assert(rows.push(fields).drop_last() == rows);
                    assert(after.stream() == before.stream() + row_bytes(columns, fields));
                } else {
                    assert(after.stream() == before.stream());
                }
            },
            Event::Sent => {
                assert(after.stream() == before.stream());
            },
            _ => {},
        }
    }
}

/// A copy that is finished has sent, once its last bytes are, the payload of the
/// rows that were kept; and a reader gets just those rows back.
pub proof fn law_a_finished_copy_is_read_back(
    columns: nat,
    states: Seq<CopyState>,
    events: Seq<Event>,
)
    requires
        is_run(columns, states, events),
    ensures
        states.last().sealed().after_send().sent == payload(columns, kept_rows(events)),
        read_payload(states.last().sealed().after_send().sent) == Some(kept_rows(events)),
{
    law_a_copy_writes_the_rows_it_keeps(columns, states, events);
    assert(states.last().sealed().after_send().sent == states.last().stream() + trailer());
    law_a_payload_is_read_back(columns, kept_rows(events));
}

/// When a copy sends, and how much at a time, makes no difference to what is
/// sent in all: two copies that keep the same rows send the same bytes.
pub proof fn law_flushing_changes_nothing(
    columns: nat,
    states: Seq<CopyState>,
    events: Seq<Event>,
    other_states: Seq<CopyState>,
    other_events: Seq<Event>,
)
    requires
        is_run(columns, states, events),
        is_run(columns, other_states, other_events),
        kept_rows(events) == kept_rows(other_events),
    ensures
        states.last().sealed().after_send().sent
            == other_states.last().sealed().after_send().sent,
{
    law_a_finished_copy_is_read_back(columns, states, events);
    law_a_finished_copy_is_read_back(columns, other_states, other_events);
}

} // verus!
