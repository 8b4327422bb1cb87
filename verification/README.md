# webpexer

A batch file converter for images (PNG, JPEG, WebP, GIF, BMP, TIFF, ICO) and text (JSON,
YAML, TOML, XML, CSV, Markdown, plain text), whose decisions are verified with Verus.

AVIF is among the formats the converter names and plans for, but this build takes the
image crate without its `avif` feature: reading or writing an AVIF file fails with the
image crate's unsupported-format error, reported as a decoding or encoding error.

## Layout

- `src/` — the verified library, checked by Verus as a whole. Most of its functions carry
  a contract that Verus proves (some helpers and getters, and the engine's calls that
  cancel or ask about cancellation, carry none); the contracts cover which format pairs
  convert, output path naming and conflict resolution, input validation,
  the checks before a batch and the steps of each file, Markdown stripping, the XML and CSV
  readers and writers, JSON/YAML/TOML reading and writing, compact JSON text written from
  and read back into structured values, the whole text conversion from the bytes read to
  the bytes written, image decoding, resizing and encoding as planned, text encodings,
  error messages and their parameters, the history of runs, and the batch as a state moved
  on by each file's outcome. Calls into `csv`, `quick-xml`, `serde_json`, `serde_yaml`,
  `toml`, `image`, `encoding_rs`, `chardetng`, `chrono`, `tokio-util` and std's path
  functions stand behind small trusted wrappers whose contracts are documented where they
  are declared.
- `app/` — the application around the library: file and folder access, serde forms of the
  library's types, history persistence and the asynchronous commands, which carry out the
  library's steps.
- `tests/` — tests of the library on concrete values.
