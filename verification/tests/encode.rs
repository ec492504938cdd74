//! Byte-for-byte checks of what the encoder writes.
//!
//! These are claims about the wire format, so they need no server.

use sqlx::encode::IsNull as DriverIsNull;
use sqlx::error::BoxDynError;
use sqlx::postgres::{PgArgumentBuffer, PgHasArrayType, PgTypeInfo};
use sqlx::{Encode, Postgres, Type, TypeInfo as _};
use sqlx_pg_copy::encode::{push_field, Encoder, IsNull};
use sqlx_pg_copy::{Error, Row};

/// The 19 bytes a payload opens with.
const HEADER: &[u8] = b"PGCOPY\n\xff\r\n\0\0\0\0\0\0\0\0\0";

/// The trailer that ends one.
const TRAILER: &[u8] = b"\xff\xff";

/// The complete payload, as a copy would send it.
fn payload(mut encoder: Encoder) -> Vec<u8> {
    encoder.seal();
    encoder.buffer().clone()
}

/// The payload so far, as a copy would be holding it.
fn buffered(encoder: &mut Encoder) -> Vec<u8> {
    encoder.buffer().clone()
}

/// Push `value` as the driver encodes it.
fn push_value<'q, T>(row: &mut Row<'_>, value: &'q T) -> Result<(), Error>
where
    T: Encode<'q, Postgres> + Type<Postgres>,
{
    row.push_value(
        |buf| match value.encode_by_ref(buf) {
            Ok(DriverIsNull::Yes) => Ok(IsNull::Yes),
            Ok(DriverIsNull::No) => Ok(IsNull::No),
            Err(source) => Err(sqlx::Error::Encode(source)),
        },
        || T::type_info().name().to_owned(),
    )
}

#[test]
fn it_opens_with_the_signature_and_ends_with_the_trailer() {
    let bytes = payload(Encoder::new(1).unwrap());
    assert_eq!(bytes.get(..HEADER.len()), Some(HEADER));
    assert_eq!(bytes.get(HEADER.len()..), Some(TRAILER));
}

#[test]
fn it_writes_a_field_count_and_then_length_prefixed_fields() {
    let mut encoder = Encoder::new(3).unwrap();
    encoder
        .write_row(|row| {
            push_value(row, &1_i64)?;
            push_value(row, &None::<i64>)?;
            row.push_raw(&[0xaa, 0xbb])
        })
        .unwrap();
    let mut want = HEADER.to_vec();
    want.extend_from_slice(&3_i16.to_be_bytes());
    want.extend_from_slice(&8_i32.to_be_bytes());
    want.extend_from_slice(&1_i64.to_be_bytes());
    want.extend_from_slice(&(-1_i32).to_be_bytes());
    want.extend_from_slice(&2_i32.to_be_bytes());
    want.extend_from_slice(&[0xaa, 0xbb]);
    want.extend_from_slice(TRAILER);
    assert_eq!(payload(encoder), want);
}

#[test]
fn it_encodes_a_value_the_way_a_bind_parameter_would() {
    let mut encoder = Encoder::new(1).unwrap();
    encoder.write_row(|row| push_value(row, &"héllo")).unwrap();
    let mut want = HEADER.to_vec();
    want.extend_from_slice(&1_i16.to_be_bytes());
    want.extend_from_slice(&6_i32.to_be_bytes());
    want.extend_from_slice("héllo".as_bytes());
    want.extend_from_slice(TRAILER);
    assert_eq!(payload(encoder), want);
}

#[test]
fn a_short_row_is_an_error_and_leaves_nothing_behind() {
    let mut encoder = Encoder::new(2).unwrap();
    let outcome = encoder.write_row(|row| push_value(row, &1_i64));
    assert!(
        matches!(
            outcome,
            Err(Error::FieldCount {
                row: 0,
                columns: 2,
                written: 1
            })
        ),
        "want a field-count error, got {outcome:?}"
    );
    assert_eq!(
        buffered(&mut encoder),
        HEADER,
        "the partial row is rolled back, leaving only the header"
    );
}

#[test]
fn a_long_row_is_an_error_at_the_field_that_overflows() {
    let mut encoder = Encoder::new(1).unwrap();
    let outcome = encoder.write_row(|row| {
        push_value(row, &1_i64)?;
        push_value(row, &2_i64)
    });
    assert!(
        matches!(outcome, Err(Error::FieldCount { written: 2, .. })),
        "want a field-count error, got {outcome:?}"
    );
    assert_eq!(buffered(&mut encoder), HEADER);
}

#[test]
fn a_copy_wider_than_a_row_can_say_is_refused() {
    let outcome = Encoder::new(40_000).map(|_| ());
    assert!(
        matches!(outcome, Err(Error::ColumnLimit { columns: 40_000 })),
        "want a column-limit error, got {outcome:?}"
    );
}

#[test]
fn sealing_appends_the_trailer_and_nothing_else() {
    let mut encoder = Encoder::new(1).unwrap();
    encoder.write_row(|row| push_value(row, &7_i32)).unwrap();
    let unsealed = buffered(&mut encoder);
    let sealed = payload(encoder);
    assert_eq!(sealed.get(..unsealed.len()), Some(unsealed.as_slice()));
    assert_eq!(sealed.get(unsealed.len()..), Some(TRAILER));
}

/// A type Postgres knows by name rather than by OID.
struct Role(&'static [u8]);

impl Type<Postgres> for Role {
    fn type_info() -> PgTypeInfo {
        PgTypeInfo::with_name("role")
    }
}

impl PgHasArrayType for Role {
    fn array_type_info() -> PgTypeInfo {
        PgTypeInfo::with_name("_role")
    }
}

impl Encode<'_, Postgres> for Role {
    fn encode_by_ref(&self, buf: &mut PgArgumentBuffer) -> Result<DriverIsNull, BoxDynError> {
        buf.extend_from_slice(self.0);
        Ok(DriverIsNull::No)
    }
}

/// A value that writes a little and then fails.
struct Stubborn;

impl Type<Postgres> for Stubborn {
    fn type_info() -> PgTypeInfo {
        PgTypeInfo::with_name("stubborn")
    }
}

impl Encode<'_, Postgres> for Stubborn {
    fn encode_by_ref(&self, buf: &mut PgArgumentBuffer) -> Result<DriverIsNull, BoxDynError> {
        buf.extend_from_slice(b"half");
        Err("will not encode".into())
    }
}

#[test]
fn a_null_and_an_empty_value_differ_in_the_prefix_alone() {
    let mut encoder = Encoder::new(3).unwrap();
    encoder
        .write_row(|row| {
            row.push_null()?;
            row.push_raw(&[])?;
            push_value(row, &"")
        })
        .unwrap();
    let mut want = HEADER.to_vec();
    want.extend_from_slice(&[0, 3]);
    want.extend_from_slice(&[0xff, 0xff, 0xff, 0xff]);
    want.extend_from_slice(&[0, 0, 0, 0]);
    want.extend_from_slice(&[0, 0, 0, 0]);
    assert_eq!(buffered(&mut encoder), want);
}

#[test]
fn raw_bytes_and_a_bytea_agree() {
    let blob: Vec<u8> = (0..=255).collect();
    let mut raw = Encoder::new(1).unwrap();
    raw.write_row(|row| row.push_raw(&blob)).unwrap();
    let mut value = Encoder::new(1).unwrap();
    value.write_row(|row| push_value(row, &blob)).unwrap();
    assert_eq!(buffered(&mut raw), buffered(&mut value));
    assert_eq!(
        buffered(&mut raw).get(HEADER.len()..HEADER.len() + 6),
        Some([0_u8, 1, 0, 0, 1, 0].as_slice())
    );
}

#[test]
fn a_length_fills_all_four_bytes_of_its_prefix() {
    let bytes = vec![0x5a_u8; 0x0102_0304];
    let mut buf = vec![7_u8];
    assert!(push_field(&mut buf, &bytes, 0).is_ok());
    assert_eq!(buf.get(..6), Some([7_u8, 1, 2, 3, 4, 0x5a].as_slice()));
    assert_eq!(buf.len(), 1 + 4 + bytes.len());
}

#[test]
fn a_field_longer_than_a_prefix_can_say_is_an_error() {
    let limit = i32::MAX as usize;
    let bytes = vec![0_u8; limit + 1];
    let mut encoder = Encoder::new(2).unwrap();
    let outcome = encoder.write_row(|row| {
        row.push_null()?;
        row.push_raw(&bytes)
    });
    assert!(
        matches!(outcome, Err(Error::FieldSize { column: 1, len }) if len == limit + 1),
        "want a field-size error, got {outcome:?}"
    );
    assert_eq!(buffered(&mut encoder), HEADER);
}

#[test]
fn a_value_that_fails_is_an_error_and_leaves_nothing_behind() {
    let mut encoder = Encoder::new(2).unwrap();
    let outcome = encoder.write_row(|row| {
        push_value(row, &1_i32)?;
        push_value(row, &Stubborn)
    });
    match outcome {
        Err(Error::Encode {
            column: 1,
            pg_type,
            source: sqlx::Error::Encode(source),
        }) => {
            assert_eq!(pg_type, "stubborn");
            assert_eq!(source.to_string(), "will not encode");
        }
        outcome => panic!("want an encoding error, got {outcome:?}"),
    }
    assert_eq!(buffered(&mut encoder), HEADER);
}

#[test]
fn a_value_that_fails_is_not_counted_though_its_error_is_dropped() {
    let mut encoder = Encoder::new(1).unwrap();
    let outcome = encoder.write_row(|row| {
        let _ = push_value(row, &Stubborn);
        Ok::<(), Error>(())
    });
    assert!(
        matches!(
            outcome,
            Err(Error::FieldCount {
                row: 0,
                columns: 1,
                written: 0
            })
        ),
        "want a field-count error, got {outcome:?}"
    );
    assert_eq!(buffered(&mut encoder), HEADER);
    assert_eq!(encoder.rows(), 0);
}

#[test]
fn raw_bytes_that_are_too_long_are_not_counted_though_their_error_is_dropped() {
    let bytes = vec![0_u8; i32::MAX as usize + 1];
    let mut encoder = Encoder::new(2).unwrap();
    let outcome = encoder.write_row(|row| {
        row.push_null()?;
        let _ = row.push_raw(&bytes);
        Ok::<(), Error>(())
    });
    assert!(
        matches!(
            outcome,
            Err(Error::FieldCount {
                row: 0,
                columns: 2,
                written: 1
            })
        ),
        "want a field-count error, got {outcome:?}"
    );
    assert_eq!(buffered(&mut encoder), HEADER);
}

#[test]
fn a_value_that_loses_its_prefix_is_not_counted_though_its_error_is_dropped() {
    let mut encoder = Encoder::new(1).unwrap();
    let outcome = encoder.write_row(|row| {
        let _ = row.push_value(
            |buf| {
                let len = buf.len();
                buf.truncate(len - 1);
                Ok(IsNull::No)
            },
            String::new,
        );
        Ok::<(), Error>(())
    });
    assert!(
        matches!(outcome, Err(Error::FieldCount { written: 0, .. })),
        "want a field-count error, got {outcome:?}"
    );
    assert_eq!(buffered(&mut encoder), HEADER);
}

#[test]
fn a_value_that_is_too_long_is_not_counted_though_its_error_is_dropped() {
    let limit = i32::MAX as usize;
    let mut encoder = Encoder::new(1).unwrap();
    let outcome = encoder.write_row(|row| {
        let refused = row.push_value(
            |buf| {
                // A fresh zeroed vector costs no memory where it is not written.
                let mut long = vec![0_u8; buf.len() + limit + 1];
                long[..buf.len()].copy_from_slice(buf);
                **buf = long;
                Ok(IsNull::No)
            },
            String::new,
        );
        assert!(
            matches!(refused, Err(Error::FieldSize { column: 0, len }) if len == limit + 1),
            "want a field-size error, got {refused:?}"
        );
        Ok::<(), Error>(())
    });
    assert!(
        matches!(outcome, Err(Error::FieldCount { written: 0, .. })),
        "want a field-count error, got {outcome:?}"
    );
    assert_eq!(buffered(&mut encoder), HEADER);
}

#[test]
fn a_null_can_stand_in_for_a_value_that_fails() {
    let mut encoder = Encoder::new(2).unwrap();
    encoder
        .write_row(|row| {
            row.push_raw(b"x")?;
            if push_value(row, &Stubborn).is_err() {
                row.push_null()?;
            }
            Ok::<(), Error>(())
        })
        .unwrap();
    assert_eq!(
        read(&payload(encoder)),
        vec![vec![Some(b"x".to_vec()), None]]
    );
}

#[test]
fn the_type_is_named_only_for_a_value_that_fails() {
    let mut encoder = Encoder::new(1).unwrap();
    encoder
        .write_row(|row| row.push_value(|_| Ok(IsNull::Yes), || panic!("asked for the type")))
        .unwrap_or_else(|err: Error| panic!("want a row, got {err:?}"));
    assert_eq!(encoder.rows(), 1);
}

#[test]
fn whatever_a_null_value_writes_is_dropped() {
    let mut encoder = Encoder::new(1).unwrap();
    encoder
        .write_row(|row| {
            row.push_value(
                |buf| {
                    buf.extend_from_slice(b"stray");
                    Ok(IsNull::Yes)
                },
                String::new,
            )
        })
        .unwrap_or_else(|err: Error| panic!("want a row, got {err:?}"));
    let mut want = HEADER.to_vec();
    want.extend_from_slice(&[0, 1, 0xff, 0xff, 0xff, 0xff]);
    assert_eq!(buffered(&mut encoder), want);
}

#[test]
fn a_value_that_loses_its_prefix_fails_the_row() {
    let mut encoder = Encoder::new(1).unwrap();
    let outcome = encoder.write_row(|row| {
        row.push_value(
            |buf| {
                let len = buf.len();
                buf.truncate(len - 1);
                Ok(IsNull::No)
            },
            String::new,
        )
    });
    assert!(
        matches!(
            outcome,
            Err(Error::FieldSize {
                column: 0,
                len: usize::MAX
            })
        ),
        "want a field-size error, got {outcome:?}"
    );
    assert_eq!(buffered(&mut encoder), HEADER);
}

#[test]
fn a_field_past_the_last_is_refused_however_it_is_pushed() {
    let mut encoder = Encoder::new(0).unwrap();
    for refused in [
        encoder.write_row(|row| row.push_null()),
        encoder.write_row(|row| row.push_raw(&[1])),
        encoder.write_row(|row| push_value(row, &1_i16)),
    ] {
        assert!(
            matches!(
                refused,
                Err(Error::FieldCount {
                    row: 0,
                    columns: 0,
                    written: 1
                })
            ),
            "want a field-count error, got {refused:?}"
        );
    }
    assert_eq!(buffered(&mut encoder), HEADER);
}

#[test]
fn a_copy_of_no_columns_still_has_rows() {
    let mut encoder = Encoder::new(0).unwrap();
    encoder.write_row(|_| Ok::<(), Error>(())).unwrap();
    encoder.write_row(|_| Ok::<(), Error>(())).unwrap();
    let mut want = HEADER.to_vec();
    want.extend_from_slice(&[0, 0, 0, 0]);
    want.extend_from_slice(TRAILER);
    assert_eq!(payload(encoder), want);
}

#[test]
fn the_widest_row_a_count_can_say_is_accepted() {
    let mut encoder = Encoder::new(32_767).unwrap();
    encoder
        .write_row(|row| {
            for _ in 0..32_767 {
                row.push_null()?;
            }
            Ok::<(), Error>(())
        })
        .unwrap();
    let bytes = buffered(&mut encoder);
    assert_eq!(
        bytes.get(HEADER.len()..HEADER.len() + 2),
        Some([0x7f_u8, 0xff].as_slice())
    );
    assert_eq!(bytes.len(), HEADER.len() + 2 + 4 * 32_767);
    assert!(matches!(
        Encoder::new(32_768),
        Err(Error::ColumnLimit { columns: 32_768 })
    ));
}

#[test]
fn only_rows_that_are_kept_are_counted() {
    let mut encoder = Encoder::new(1).unwrap();
    encoder.write_row(|row| row.push_null()).unwrap();
    assert!(encoder.write_row(|_| Ok::<(), Error>(())).is_err());
    encoder.write_row(|row| row.push_raw(b"x")).unwrap();
    assert_eq!(encoder.rows(), 2);
    let outcome = encoder.write_row(|_| Ok::<(), Error>(()));
    assert!(
        matches!(
            outcome,
            Err(Error::FieldCount {
                row: 2,
                columns: 1,
                written: 0
            })
        ),
        "want the third row's field-count error, got {outcome:?}"
    );
}

/// A caller's own error.
#[derive(Debug)]
enum Own {
    Mine,
    Copy(Error),
}

impl From<Error> for Own {
    fn from(error: Error) -> Self {
        Self::Copy(error)
    }
}

#[test]
fn a_closure_fails_with_its_own_error() {
    let mut encoder = Encoder::new(2).unwrap();
    let mine = encoder.write_row(|row| {
        row.push_null()?;
        Err(Own::Mine)
    });
    assert!(matches!(mine, Err(Own::Mine)), "got {mine:?}");
    let short = encoder.write_row(|row| {
        row.push_null()?;
        Ok::<(), Own>(())
    });
    assert!(
        matches!(
            short,
            Err(Own::Copy(Error::FieldCount {
                row: 0,
                columns: 2,
                written: 1
            }))
        ),
        "got {short:?}"
    );
    assert_eq!(buffered(&mut encoder), HEADER);
}

#[test]
fn resetting_forgets_what_the_driver_meant_to_patch() {
    let mut encoder = Encoder::new(1).unwrap();
    let roles = vec![Role(b"admin"), Role(b"guest")];
    encoder.write_row(|row| push_value(row, &roles)).unwrap();
    assert!(!format!("{encoder:?}").contains("hole_offsets: []"));
    let capacity = encoder.buffer().capacity();
    encoder.reset();
    assert!(format!("{encoder:?}").contains("hole_offsets: []"));
    assert_eq!(buffered(&mut encoder), b"");
    assert!(encoder.buffer().capacity() >= capacity);
    assert_eq!(encoder.rows(), 1);
}

/// The rows in a payload: each a sequence of fields, null or not.
fn read(payload: &[u8]) -> Vec<Vec<Option<Vec<u8>>>> {
    let mut rest = payload.strip_prefix(HEADER).unwrap();
    let mut rows = Vec::new();
    loop {
        let (count, after) = rest.split_at(2);
        rest = after;
        let count = i16::from_be_bytes(count.try_into().unwrap());
        if count == -1 {
            assert!(rest.is_empty(), "nothing follows the trailer");
            return rows;
        }
        let mut fields = Vec::new();
        for _ in 0..count {
            let (len, after) = rest.split_at(4);
            rest = after;
            let len = i32::from_be_bytes(len.try_into().unwrap());
            if len == -1 {
                fields.push(None);
            } else {
                let (field, after) = rest.split_at(usize::try_from(len).unwrap());
                rest = after;
                fields.push(Some(field.to_vec()));
            }
        }
        rows.push(fields);
    }
}

#[test]
fn rows_are_read_back_as_they_went_in() {
    let rows: Vec<Vec<Option<Vec<u8>>>> = vec![
        vec![None, Some(vec![])],
        vec![Some(vec![0xff; 300]), None],
        vec![Some(b"PGCOPY".to_vec()), Some(vec![0xff, 0xff])],
    ];
    let mut encoder = Encoder::new(2).unwrap();
    for fields in &rows {
        encoder
            .write_row(|row| {
                for field in fields {
                    match field {
                        None => row.push_null()?,
                        Some(bytes) => row.push_raw(bytes)?,
                    }
                }
                Ok::<(), Error>(())
            })
            .unwrap();
        assert!(encoder.write_row(|row| row.push_null()).is_err());
    }
    assert_eq!(read(&payload(encoder)), rows);
}
