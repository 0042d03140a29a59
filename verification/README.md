# aamp

Binary parameter archives (AAMP, version 2, little endian, UTF-8) as a
library verified with Verus.

- `src/hash.rs`: the CRC-32 under which names are stored, proved against a
  bit-level definition of CRC-32.
- `src/name.rs`: `Name`, a wrapper around that hash.
- `src/types.rs`, `src/parameter.rs`: parameter values (floats held by their
  IEEE-754 bit patterns) and their type tags.
- `src/entries.rs`, `src/structure.rs`: parameter objects and lists, ordered
  maps held in `indexmap::IndexMap`, and their insertion laws.
- `src/le.rs`, `src/records.rs`: the fixed-size records of the binary form,
  with read/write round-trip laws.
- `app/`: copies of the data types with serde and enum-as-inner derives and
  `f32` payloads, float equality and hashing, and the `h!` macro.
