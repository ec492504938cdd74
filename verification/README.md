# sqlx_pg_copy

Binary `COPY ... FROM STDIN` encoder for `sqlx`'s Postgres driver, verified with
Verus.

A copy takes rows, filled in field by field, frames them in the binary format,
and hands out bytes to send once enough are buffered. Values are encoded by
`sqlx`, straight into the driver's own argument buffer; the length of a field is
patched in once its value has been written.

## Layout

- `src/format.rs`: the format, byte for byte, and how it is read.
- `src/buffer.rs`: the driver's argument buffer as a byte vector. Together with
  two declarations in `src/error.rs`, this is all that is trusted.
- `src/encode.rs`: `Row` and `Encoder`, which build a payload.
- `src/copy_in.rs`: `CopyIn`, which decides what to send, when, and what the
  driver's answers come to.
- `src/error.rs`: what can go wrong.
- `src/laws.rs`: what holds of fields, rows and whole copies. As long as the
  encodings of its values only append to the buffer, a row is kept whole or not at
  all, whatever its closure makes of a field that fails. Then, whatever happens to
  a copy, and however it is flushed, what it sends is the payload of the rows it
  kept, and a reader of the format gets those rows back.
- `app/`: the copy over a connection. It makes the driver's calls and reports
  their outcomes to `CopyIn`.

## Not included

- Text and CSV formats: the encoder writes binary only.
- `COPY ... TO STDOUT`.
