//! A copy in progress: what to send, when, and what the answers come to.
//!
//! The driver does the sending. A copy hands out the bytes that are due, and is
//! told how sending them went.
use crate::encode::{row_settled, Encoder, EncoderState, Row};
use crate::error::Error;
use crate::format::{header, trailer};
use sqlx::Error as DriverError;
use vstd::prelude::*;

verus! {

/// Default buffer size at which [`CopyIn`] sends.
pub const FLUSH_AT: usize = 1 << 20;

/// What the driver answered, as this crate's result.
///
/// # Errors
///
/// [`Error::Sqlx`] around the driver's error.
pub fn reply<T>(outcome: Result<T, DriverError>) -> (result: Result<T, Error>)
    ensures
        result == (match outcome {
            Ok(value) => Ok::<T, Error>(value),
            Err(err) => Err::<T, Error>(Error::Sqlx(err)),
        }),
{
    match outcome {
        Ok(value) => Ok(value),
        Err(err) => Err(Error::from(err)),
    }
}

/// A copy that cannot go ahead.
///
/// The connection is in copy mode by then, so the copy has to be aborted with
/// `message` before the caller gets `error`: that leaves a usable connection.
#[derive(Debug)]
pub struct Refusal {
    /// What to tell the server.
    pub message: &'static str,
    /// What to tell the caller.
    pub error: Error,
}

impl Refusal {
    /// What the caller is told, given how the abort went.
    pub fn answer(self, aborted: Result<(), DriverError>) -> (error: Error)
        ensures
            error == (match aborted {
                Ok(_) => self.error,
                Err(err) => Error::Sqlx(err),
            }),
    {
        match aborted {
            Ok(()) => self.error,
            Err(err) => Error::from(err),
        }
    }
}

/// Check the server expects binary, given whether it says it expects text.
///
/// # Errors
///
/// A refusal with [`Error::Textual`] if the statement asks for a textual format.
pub fn begin_checked(textual: bool) -> (outcome: Result<(), Refusal>)
    ensures
        !textual ==> outcome is Ok,
        textual ==> {
            &&& outcome is Err
            &&& outcome->Err_0.error == Error::Textual
            &&& outcome->Err_0.message@ == "the payload is binary and the statement is not"@
        },
{
    if textual {
        return Err(
            Refusal {
                message: "the payload is binary and the statement is not",
                error: Error::Textual,
            },
        );
    }
    Ok(())
}

/// A copy, abstractly.
#[verifier::ext_equal]
pub struct CopyState {
    /// The payload under construction, less what has been sent.
    pub encoder: EncoderState,
    /// What has been sent, in one piece.
    pub sent: Seq<u8>,
    /// The buffer size at which to send.
    pub flush_at: nat,
}

impl CopyState {
    /// Everything written so far, sent or not.
    pub open spec fn stream(self) -> Seq<u8> {
        self.sent + self.encoder.bytes
    }

    /// The copy before its first row.
    pub open spec fn begun(columns: nat) -> CopyState {
        CopyState {
            encoder: EncoderState { bytes: header(), deferred: 0, columns, rows: 0 },
            sent: Seq::empty(),
            flush_at: FLUSH_AT as nat,
        }
    }

    /// The copy once its buffer has been sent.
    pub open spec fn after_send(self) -> CopyState {
        CopyState {
            encoder: EncoderState { bytes: Seq::empty(), deferred: 0, ..self.encoder },
            sent: self.sent + self.encoder.bytes,
            ..self
        }
    }

    /// The copy with the trailer behind its rows.
    pub open spec fn sealed(self) -> CopyState {
        CopyState {
            encoder: EncoderState { bytes: self.encoder.bytes + trailer(), ..self.encoder },
            ..self
        }
    }
}

/// A `COPY ... FROM STDIN WITH (FORMAT binary)` in progress.
///
/// Rows are buffered and sent once the buffer reaches
/// [`flush_at`](Self::flush_at).
pub struct CopyIn {
    encoder: Encoder,
    flush_at: usize,
    /// What has been sent.
    sent: Ghost<Seq<u8>>,
}

impl View for CopyIn {
    type V = CopyState;

    closed spec fn view(&self) -> CopyState {
        CopyState { encoder: self.encoder@, sent: self.sent@, flush_at: self.flush_at as nat }
    }
}

impl CopyIn {
    /// The payload is well formed.
    pub closed spec fn well_formed(&self) -> bool {
        self.encoder.well_formed()
    }

    /// A row can state how many columns there are.
    pub proof fn lemma_columns_fit(&self)
        requires
            self.well_formed(),
        ensures
            self@.encoder.columns <= i16::MAX,
    {
        self.encoder.lemma_columns_fit();
    }

    /// A copy, given whether the server says it expects text, and how many
    /// columns it says there are.
    ///
    /// Refuses here rather than failing on the first row, so the caller gets a
    /// usable connection back.
    ///
    /// # Errors
    ///
    /// A refusal with [`Error::Textual`] if the statement asks for a textual
    /// format, and one with [`Error::ColumnLimit`] if the copy is wider than a
    /// row can be.
    pub fn begin(textual: bool, columns: usize) -> (outcome: Result<Self, Refusal>)
        ensures
            textual ==> {
                &&& outcome is Err
                &&& outcome->Err_0.error == Error::Textual
                &&& outcome->Err_0.message@ == "the payload is binary and the statement is not"@
            },
            !textual && columns <= i16::MAX ==> {
                &&& outcome is Ok
                &&& outcome->Ok_0.well_formed()
                &&& outcome->Ok_0@ == CopyState::begun(columns as nat)
                &&& outcome->Ok_0@.flush_at == FLUSH_AT
                &&& outcome->Ok_0@.sent == Seq::<u8>::empty()
                &&& outcome->Ok_0@.encoder.bytes == header()
                &&& outcome->Ok_0@.encoder.columns == columns
                &&& outcome->Ok_0@.encoder.rows == 0
            },
            !textual && columns > i16::MAX ==> {
                &&& outcome is Err
                &&& outcome->Err_0.error == (Error::ColumnLimit { columns })
                &&& outcome->Err_0.message@ == "the copy has more columns than a row can hold"@
            },
    {
        match begin_checked(textual) {
            Ok(()) => {},
            Err(refusal) => return Err(refusal),
        }
        match Encoder::new(columns) {
            Ok(encoder) => Ok(
                CopyIn { encoder, flush_at: FLUSH_AT, sent: Ghost(Seq::empty()) },
            ),
            Err(error) => Err(
                Refusal { message: "the copy has more columns than a row can hold", error },
            ),
        }
    }

    /// Send once `bytes` have been buffered, instead of the default megabyte.
    #[must_use]
    pub fn flush_at(self, bytes: usize) -> (copy: Self)
        ensures
            copy@ == (CopyState { flush_at: bytes as nat, ..self@ }),
            self.well_formed() ==> copy.well_formed(),
    {
        CopyIn { flush_at: bytes, ..self }
    }

    /// How many rows have been written.
    pub fn rows(&self) -> (rows: u64)
        ensures
            rows == self@.encoder.rows,
    {
        self.encoder.rows()
    }

    /// Append a row, filled in by `write`. Returns whether the buffer is full,
    /// and has to be sent.
    ///
    /// # Errors
    ///
    /// Whatever `write` returns, or [`Error::FieldCount`].
    pub fn write_row<E, F>(&mut self, write: F) -> (result: Result<bool, E>) where
        E: From<Error>,
        F: FnOnce(&mut Row<'_>) -> Result<(), E>,

        requires
            old(self).well_formed(),
            old(self)@.encoder.rows < u64::MAX,
            forall|row: &mut Row|
                row@ == old(self)@.encoder.next_row() ==> #[trigger] call_requires(write, (row,)),
        ensures
            final(self).well_formed(),
            final(self)@.sent == old(self)@.sent,
            final(self)@.flush_at == old(self)@.flush_at,
            exists|row: &mut Row, outcome: Result<(), E>|
                {
                    &&& row@ == old(self)@.encoder.next_row()
                    &&& #[trigger] call_ensures(write, (row,), outcome)
                    &&& outcome matches Err(err) ==> result == Err::<bool, E>(err)
                    &&& row_settled(
                        old(self)@.encoder,
                        final(row)@,
                        outcome,
                        final(self)@.encoder,
                        match result {
                            Ok(_) => Ok::<(), E>(()),
                            Err(err) => Err::<(), E>(err),
                        },
                    )
                },
            result matches Ok(full) ==> {
                full == (final(self)@.encoder.bytes.len() >= final(self)@.flush_at)
            },
    {
        match self.encoder.write_row(write) {
            Ok(()) => Ok(self.encoder.buffer().len() >= self.flush_at),
            Err(err) => Err(err),
        }
    }

    /// What there is to send, if anything. To be answered with
    /// [`flushed`](Self::flushed).
    pub fn flush(&mut self) -> (bytes: Option<&[u8]>)
        ensures
            old(self)@.encoder.bytes.len() == 0 ==> bytes is None,
            old(self)@.encoder.bytes.len() > 0 ==> {
                &&& bytes is Some
                &&& bytes->Some_0@ == old(self)@.encoder.bytes
            },
            final(self)@ == old(self)@,
            old(self).well_formed() ==> final(self).well_formed(),
    {
        let buffer = self.encoder.buffer();
        if buffer.is_empty() {
            return None;
        }
        Some(buffer.as_slice())
    }

    /// Take note of how sending the buffer went. What was sent leaves the
    /// buffer; what was not stays.
    ///
    /// # Errors
    ///
    /// [`Error::Sqlx`] if it was not sent.
    pub fn flushed(&mut self, outcome: Result<(), DriverError>) -> (result: Result<(), Error>)
        ensures
            outcome is Ok ==> {
                &&& result is Ok
                &&& final(self)@ == old(self)@.after_send()
                &&& final(self)@.encoder.bytes == Seq::<u8>::empty()
                &&& final(self)@.sent == old(self)@.sent + old(self)@.encoder.bytes
                &&& final(self)@.encoder.rows == old(self)@.encoder.rows
                &&& final(self)@.encoder.columns == old(self)@.encoder.columns
                &&& final(self)@.flush_at == old(self)@.flush_at
            },
            outcome matches Err(err) ==> {
                &&& result == Err::<(), Error>(Error::Sqlx(err))
                &&& final(self)@ == old(self)@
            },
            old(self).well_formed() ==> final(self).well_formed(),
    {
        match reply(outcome) {
            Ok(()) => {
                self.sent = Ghost(self.sent@ + self.encoder@.bytes);
                // Replaces the buffer rather than clearing it; see
                // `Encoder::reset`.
                self.encoder.reset();
                Ok(())
            },
            Err(err) => Err(err),
        }
    }

    /// End the copy: what is left to send is the rest of the rows and the
    /// trailer.
    pub fn finish(self) -> (closing: Closing)
        ensures
            closing@ == self@.sealed(),
            closing@.encoder.bytes == self@.encoder.bytes + trailer(),
            closing@.sent == self@.sent,
    {
        let mut copy = self;
        copy.encoder.seal();
        Closing { copy }
    }

    /// Abandon the copy, discarding all its rows, given how the server took the
    /// abort.
    ///
    /// # Errors
    ///
    /// [`Error::Sqlx`] if the server answers with anything but the expected
    /// abort error.
    pub fn abort(self, aborted: Result<(), DriverError>) -> (result: Result<(), Error>)
        ensures
            result == (match aborted {
                Ok(_) => Ok::<(), Error>(()),
                Err(err) => Err::<(), Error>(Error::Sqlx(err)),
            }),
    {
        reply(aborted)
    }
}

/// A copy that takes no more rows: its last bytes, trailer and all, are still to
/// be sent.
pub struct Closing {
    copy: CopyIn,
}

impl View for Closing {
    type V = CopyState;

    closed spec fn view(&self) -> CopyState {
        self.copy@
    }
}

impl Closing {
    /// The last bytes to send. To be answered with [`flushed`](Self::flushed).
    pub fn flush(&mut self) -> (bytes: &[u8])
        ensures
            bytes@ == old(self)@.encoder.bytes,
            final(self)@ == old(self)@,
    {
        self.copy.encoder.buffer().as_slice()
    }

    /// What sending the last bytes comes to. If they were sent, the server may
    /// be asked to finish; its answer goes through [`reply`].
    ///
    /// # Errors
    ///
    /// [`Error::Sqlx`] if they were not sent.
    pub fn flushed(self, outcome: Result<(), DriverError>) -> (result: Result<(), Error>)
        ensures
            result == (match outcome {
                Ok(_) => Ok::<(), Error>(()),
                Err(err) => Err::<(), Error>(Error::Sqlx(err)),
            }),
    {
        reply(outcome)
    }
}

} // verus!
