//! What a copy hands out to send, and what it makes of the answers.

use sqlx_pg_copy::copy_in::{begin_checked, reply, FLUSH_AT};
use sqlx_pg_copy::{CopyIn, Error};

/// The 19 bytes a payload opens with.
const HEADER: &[u8] = b"PGCOPY\n\xff\r\n\0\0\0\0\0\0\0\0\0";

/// A copy of `columns` columns.
fn begin(columns: usize) -> CopyIn {
    match CopyIn::begin(false, columns) {
        Ok(copy) => copy,
        Err(refusal) => panic!("want a copy, got {refusal:?}"),
    }
}

/// Send `rows` rows of one field each through a copy that sends at `flush_at`
/// bytes, or at the default. Returns the pieces it sent.
fn pieces(rows: u32, flush_at: Option<usize>) -> Vec<Vec<u8>> {
    let mut copy = begin(1);
    if let Some(bytes) = flush_at {
        copy = copy.flush_at(bytes);
    }
    let mut pieces = Vec::new();
    for id in 0..rows {
        let full = copy
            .write_row(|row| row.push_raw(&id.to_be_bytes()))
            .unwrap_or_else(|err: Error| panic!("want a row, got {err:?}"));
        if full {
            pieces.push(copy.flush().unwrap().to_vec());
            assert!(copy.flushed(Ok(())).is_ok());
        }
    }
    let mut closing = copy.finish();
    pieces.push(closing.flush().to_vec());
    assert!(closing.flushed(Ok(())).is_ok());
    pieces
}

#[test]
fn a_copy_holds_the_header_before_its_first_row() {
    let mut copy = begin(5);
    assert_eq!(copy.flush(), Some(HEADER));
    assert_eq!(copy.rows(), 0);
}

#[test]
fn a_textual_copy_is_refused() {
    assert!(begin_checked(false).is_ok());
    let refusal = begin_checked(true).unwrap_err();
    assert_eq!(
        refusal.message,
        "the payload is binary and the statement is not"
    );
    assert!(matches!(refusal.answer(Ok(())), Error::Textual));
    for columns in [1, 32_768] {
        let refusal = match CopyIn::begin(true, columns) {
            Ok(_) => panic!("want a refusal"),
            Err(refusal) => refusal,
        };
        assert_eq!(
            refusal.message,
            "the payload is binary and the statement is not"
        );
        assert!(matches!(refusal.answer(Ok(())), Error::Textual));
    }
}

#[test]
fn a_copy_with_too_many_columns_is_refused() {
    let refusal = match CopyIn::begin(false, 32_768) {
        Ok(_) => panic!("want a refusal"),
        Err(refusal) => refusal,
    };
    assert_eq!(
        refusal.message,
        "the copy has more columns than a row can hold"
    );
    assert!(matches!(
        refusal.answer(Ok(())),
        Error::ColumnLimit { columns: 32_768 }
    ));
}

#[test]
fn a_refusal_that_cannot_be_delivered_is_the_driver_error() {
    let refusal = begin_checked(true).unwrap_err();
    let answer = refusal.answer(Err(sqlx::Error::WorkerCrashed));
    assert!(
        matches!(answer, Error::Sqlx(sqlx::Error::WorkerCrashed)),
        "want the driver's error, got {answer:?}"
    );
}

#[test]
fn a_row_of_the_wrong_width_names_the_columns_of_the_copy() {
    let mut copy = begin(5);
    let outcome = copy.write_row(|row| row.push_raw(&1_i64.to_be_bytes()));
    assert!(
        matches!(
            outcome,
            Err(Error::FieldCount {
                row: 0,
                columns: 5,
                written: 1
            })
        ),
        "want a field-count error for the five columns, got {outcome:?}"
    );
    assert_eq!(copy.flush(), Some(HEADER));
    assert_eq!(copy.rows(), 0);
}

#[test]
fn a_copy_is_full_once_it_reaches_its_size() {
    // The header is 19 bytes, and a row of one null is 6.
    let mut copy = begin(1).flush_at(31);
    assert!(matches!(
        copy.write_row::<Error, _>(|row| row.push_null()),
        Ok(false)
    ));
    assert!(matches!(
        copy.write_row::<Error, _>(|row| row.push_null()),
        Ok(true)
    ));
    assert_eq!(copy.flush().map(<[u8]>::len), Some(31));
    assert_eq!(copy.rows(), 2);
}

#[test]
fn what_is_sent_leaves_the_buffer() {
    let mut copy = begin(1);
    assert!(copy.flushed(Ok(())).is_ok());
    assert_eq!(copy.flush(), None);
    assert!(matches!(
        copy.write_row::<Error, _>(|row| row.push_null()),
        Ok(false)
    ));
    assert_eq!(
        copy.flush(),
        Some([0_u8, 1, 0xff, 0xff, 0xff, 0xff].as_slice())
    );
}

#[test]
fn what_is_not_sent_stays_in_the_buffer() {
    let mut copy = begin(1);
    let outcome = copy.flushed(Err(sqlx::Error::PoolClosed));
    assert!(
        matches!(outcome, Err(Error::Sqlx(sqlx::Error::PoolClosed))),
        "want the driver's error, got {outcome:?}"
    );
    assert_eq!(copy.flush(), Some(HEADER));
}

#[test]
fn finishing_leaves_the_trailer_to_send() {
    let mut copy = begin(1);
    assert!(copy.flushed(Ok(())).is_ok());
    let mut closing = copy.finish();
    assert_eq!(closing.flush(), [0xff, 0xff]);
    let outcome = closing.flushed(Err(sqlx::Error::PoolTimedOut));
    assert!(matches!(
        outcome,
        Err(Error::Sqlx(sqlx::Error::PoolTimedOut))
    ));
}

#[test]
fn a_copy_that_sends_as_it_fills_sends_the_same_bytes() {
    let streamed = pieces(1000, Some(64));
    assert!(streamed.len() > 1, "more than one piece is sent");
    assert!(streamed[..streamed.len() - 1]
        .iter()
        .all(|piece| piece.len() >= 64));
    let whole = pieces(1000, None);
    assert_eq!(whole.len(), 1, "a thousand small rows fit in one piece");
    assert_eq!(streamed.concat(), whole.concat());
    let every_row = pieces(1000, Some(0));
    assert_eq!(every_row.len(), 1001);
    assert_eq!(every_row.concat(), whole.concat());
}

#[test]
fn the_default_size_is_a_megabyte() {
    assert_eq!(FLUSH_AT, 1_048_576);
    let mut copy = begin(1);
    // 19 bytes of header, and 6 of count and length before the field itself.
    let field = vec![0_u8; FLUSH_AT - 19 - 6 - 1];
    assert!(matches!(
        copy.write_row::<Error, _>(|row| row.push_raw(&field)),
        Ok(false)
    ));
    let mut copy = begin(1);
    let field = vec![0_u8; FLUSH_AT - 19 - 6];
    assert!(matches!(
        copy.write_row::<Error, _>(|row| row.push_raw(&field)),
        Ok(true)
    ));
}

#[test]
fn an_abort_reports_what_the_server_made_of_it() {
    assert!(begin(1).abort(Ok(())).is_ok());
    let outcome = begin(1).abort(Err(sqlx::Error::RowNotFound));
    assert!(matches!(
        outcome,
        Err(Error::Sqlx(sqlx::Error::RowNotFound))
    ));
}

#[test]
fn the_row_count_is_the_one_the_server_reports() {
    assert!(matches!(reply(Ok::<u64, sqlx::Error>(1000)), Ok(1000)));
    assert!(matches!(
        reply(Err::<u64, sqlx::Error>(sqlx::Error::BeginFailed)),
        Err(Error::Sqlx(sqlx::Error::BeginFailed))
    ));
    let converted = Error::from(sqlx::Error::BeginFailed);
    assert!(matches!(converted, Error::Sqlx(sqlx::Error::BeginFailed)));
}
