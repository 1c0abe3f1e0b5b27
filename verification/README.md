# macrokit

Verified building blocks for four code generators over Rust token streams:

- **bitfield**: a struct's fields packed into a byte array, with typed
  accessors. `bits` reads and writes a run of bits, most significant bit
  first; `specifier` gives the field types (`bool`, `B0`..`B64`) and how their
  values map to raw bits; `enum_specifier` gives the rules for fieldless enums
  used as field types; `layout` states how fields follow one another;
  `checks` holds the type-level markers that refuse a total width that is not
  a whole number of bytes; `bitfield_attrs` finds a field's `#[bits = N]`.
- **seq**: `N in start..end { body }` read from tokens (`seq_macro`) and
  expanded by substituting numbers for `N` (`seq_expand`).
- **builder**: the kind of each field of a builder derive (`builder`).
- **debug**: the format string of each field of a debug derive (`debug`).

Token trees, attributes and type shapes are plain values (`tokens`,
`attrs`); `syntax` asks `syn` the lexical questions about single tokens,
and `item` has `syn` parse the text of a derive's or attribute's input into
an item's shape (`outside` declares the `syn` and `proc_macro2` types it
carries). Each derive has an entry function that reads its input this way
and a verified plan that decides what to generate:
`enum_specifier::derive_specifier`, `builder::derive`, `debug::derive`
and `bitfield_attrs::bitfield`.
The functions in `src/` are verified with Verus against their contracts,
except those marked `#[verifier::external_body]`: small wrappers that
call into `syn` or `std`, or convert `syn` and `proc_macro2` values one
for one, and whose contracts are trusted.

`app/` turns `proc_macro2` token streams into these plain values and back,
and writes the generated items with `quote`, following the plans.
