# mongrel

A Mongoose-style object-document mapper for MongoDB, written in Verus.

`src/` is the verified library. It holds everything the mapper decides:

- `document` — BSON values and ordered documents with distinct keys, and the
  read-after-write laws of `insert` / `get`.
- `query` — the chainable query builder; conditions on a field already
  constrained are joined under `$and`, so every condition stays in force.
- `pagination` — page arithmetic (`total_pages` is the ceiling of
  `total / per_page`) and the page query.
- `aggregation` — pipeline stages in the order they are added.
- `index` — index definitions, their builder, and the driver options they give.
- `schema` — schema declarations resolved to a collection name, unique fields
  and field validators; validation with its messages.
- `middleware` — middleware stacks per event, the order in which a create
  or a delete runs middleware, hooks and database work (all pre-validate and
  pre-save middleware before any schema hook), and the step function that
  ends a lifecycle at its first failing step.
- `model`, `populate`, `virtual_fields`, `connection` — id parsing, the
  document a create writes and its timestamps, update stamping, references,
  computed values and the connection slot.
- `text` — naming conventions, comma lists and trimming.

`app/` drives the MongoDB driver: it performs the steps the library plans,
converts documents between the driver's types and the library's, and adds
serde support.
