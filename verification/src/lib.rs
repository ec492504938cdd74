//! Binary `COPY ... FROM STDIN` encoder for `sqlx`'s Postgres driver.
//!
//! [`CopyIn`] takes rows, frames them in the binary format, and hands out the
//! bytes to send. What those bytes are is in [`format`], what each operation does
//! is in [`operations`], and what follows for a whole copy is in [`laws`].

pub mod buffer;
pub mod copy_in;
pub mod encode;
pub mod error;
pub mod format;
pub mod laws;
pub mod operations;

pub use copy_in::CopyIn;
pub use encode::Row;
pub use error::Error;
