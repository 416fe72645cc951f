# videre

A read-only PostgreSQL inspector, with its decisions verified by Verus.

- `src/` is the verified library.
  - `pg/`: identifier quoting, column plans and decoding, key binding, the
    page and row queries, and the assembly of a relation's structure from
    catalog rows.
  - `commands.rs`: the connection state and the outcome of connecting.
  - `ui/`: the state the interface keeps — tabs, saved connections, the
    metadata store, themes and font sizes, sorting, the table page's paging
    and drawers, the roles and indexes pages, keyboard shortcuts.
  - `text.rs`, `json.rs`, `types.rs`: text and number formatting and
    parsing, JSON values, and the values that cross to the interface.
- `tests/` runs the library on concrete values.
- `app/` is a command-line reader: the driver calls, the wire forms of the
  types, and the few computations done in floating point.
