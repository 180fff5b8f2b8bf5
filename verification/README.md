# pe_editor

Reads the headers of Portable Executable (PE) files, with its logic verified by Verus.

- `src/helpers.rs`: big-endian conversions between `u8`/`u16`/`u32`/`u64` and byte
  arrays (`BytesConversion`, `to_bytes`, `from_bytes`), little-endian reads out of a
  buffer (`read_n_bytes_le`), and the laws that tie them together.
- `src/pe.rs`: `Editor`, which checks the `MZ` signature of a file's contents and
  parses its 64-byte MS-DOS header.
- `src/types.rs`: the PE header structures.
- `app/lib.rs`: opening an `Editor` on a file on disk, and the error type with its
  user-facing messages.
