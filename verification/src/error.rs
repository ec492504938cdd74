//! What can go wrong in building or running a copy.
use sqlx::Error as DriverError;
use vstd::prelude::*;
use vstd::std_specs::convert::FromSpecImpl;

verus! {

/// `sqlx::Error`, the driver's own error. It is carried as it comes and never
/// looked into.
#[verifier::external_type_specification]
#[verifier::external_body]
pub struct ExDriverError(DriverError);

/// `From::from` of a type into itself, which every type has from std: it hands
/// its argument back unchanged. A row whose closure fails with [`Error`] itself
/// gets its field-count error through it.
pub assume_specification<A>[ <A as core::convert::From<A>>::from ](value: A) -> (same: A)
    ensures
        same == value,
;

/// An error from building or running a copy.
#[derive(Debug)]
pub enum Error {
    /// A row had a different number of fields than the copy has columns.
    FieldCount {
        /// Which row, counting from zero.
        row: u64,
        /// How many columns the copy declares.
        columns: usize,
        /// Fields written, or for an over-long row the index it was refused
        /// at.
        written: usize,
    },
    /// The statement asks for a textual format, which is unsupported.
    Textual,
    /// A value failed to encode itself into the row.
    Encode {
        /// Which field of the row, counting from zero.
        column: usize,
        /// The Postgres type the value reports, to tell similar rows apart.
        pg_type: String,
        /// What the value's encoding returned.
        source: DriverError,
    },
    /// A field's encoding is too long for the format's `i32` length prefix.
    FieldSize {
        /// Which field of the row, counting from zero.
        column: usize,
        /// How long the encoded value came out.
        len: usize,
    },
    /// The copy has more columns than a binary row's `i16` field count holds.
    ColumnLimit {
        /// How many columns the copy declares.
        columns: usize,
    },
    /// The driver or server failed, at any point in the copy.
    Sqlx(DriverError),
}

impl From<DriverError> for Error {
    fn from(error: DriverError) -> (wrapped: Self) {
        Error::Sqlx(error)
    }
}

impl FromSpecImpl<DriverError> for Error {
    open spec fn obeys_from_spec() -> bool {
        true
    }

    open spec fn from_spec(error: DriverError) -> Self {
        Error::Sqlx(error)
    }
}

} // verus!
