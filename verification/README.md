# isocore

A Verus library with two parts:

- **isopack**: a self-describing binary format. It has a cursor over borrowed
  or streamed bytes (`cursor`), a decoder (`decoder`) and an encoder
  (`encoder`). The byte layouts are specified in `wire`, and the format's laws
  are in `laws`.
- **exorun core**: the plain-data part of a component runtime.
  - `ids`: identifiers.
  - `value`: component-model values and their isopack form.
  - `ledger`: the ledger of a component's imports, with its wire-safety check.
  - `peer`, `client` and `calls`: the lifecycle and request bookkeeping of RPC
    peers.
  - `host`, `kv` and `system`: host components.
  - `transport`: transport errors.
  - `name_map`: a map keyed by names.

Every function in `src/` is verified by Verus against its `requires` and
`ensures`. The trusted items are few and documented where they stand:
- `std::str::from_utf8`
- `char::from_u32`
- `Duration::from_secs`
- the `dashmap::DashMap` calls in `calls`

## Scope and design notes

- **Runtime plumbing.** The async work of the runtime is not part of this
  library: moving bytes over transports, awaiting replies, and spawning
  message pumps and wasmtime instances. The library keeps the decisions. A
  peer or client method takes what happened (a reply arrived, a send failed,
  the pump stopped) and gives the next state and whom to tell. The code that
  drives it links the host functions, shares the stores between them, and
  turns wasmtime `Type`/`Val` into `WireType`/`WireVal`.
- **Component values.**
  - `encode_val` writes into an `Encoder`. Scalars are written as scalars; a
    `char` as its `u32` value; strings as strings. Lists, tuples and records
    are written as lists of their items; flags as a list of their names.
  - Option, result, variant and enum values have no encoding, because the
    format has no tags for them.
  - `decode_val` reads scalars, characters, strings, flags and empty lists.
  - When asked for an option or a result, it reads the next value and refuses
    it with `TypeMismatch`.
  - Records, tuples, variants, enums, lists with items, and handles give
    `Malformed`.
- **Floats** are carried by their IEEE bits (`f32_bits`, `f64_bits`,
  `F32Bits`, `F64Bits`).
- **Unfinished containers.** The encoder's containers have no `Drop`, which
  Verus does not support for them. A container must be closed with `finish`;
  one dropped without it leaves its scope open and its length unwritten, and
  `flush` then answers `ScopeOpen`. A `finish` that fails (a body too long
  for a 32-bit length) still closes the scope. `encode_val` never leaves a
  scope open: a list that fails part-way is closed over what was written of
  its body.
- **Cursor positions.** `Cursor::with_context` accepts a start position past
  the end of the slice; such a cursor has nothing remaining and reports the
  bytes still missing when asked to read. Cursors made over whole bytes
  (`Cursor::new`, the decoders) keep their position within their bytes.
- **Name-keyed maps.** Maps keyed by names (the key-value store and the
  ledger) are `NameMap`s: lists of entries with distinct names, verified
  against a map view. `Tag::Mapping` is the tag of an isopack map.
