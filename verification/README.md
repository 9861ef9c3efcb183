# parquet_footer

Footer field overrides for Parquet `FileMetaData`, verified with Verus.

A writer can replace fields of the Thrift footer struct with values of its own
type (`FooterFieldValue`); a reader takes such fields out of the field stream
of the footer's outermost struct, checks their wire type against the declared
override type, and records their values, handing every other field on to the
footer decoder.

- `src/value.rs`: override values, their types, and the Thrift wire types.
- `src/compact.rs`: the thrift compact protocol reader and writer, the trusted
  boundary of the library.
- `src/write.rs`: writing one overridden field.
- `src/read.rs`: reading one overridden field, and `OverrideInputProtocol`.
- `src/laws.rs`: what holds across writing and reading.
- `app/lib.rs`: `OverrideInputProtocol` behind thrift's `TInputProtocol` trait.
