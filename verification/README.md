# bectordb

A small document database, verified with Verus.

- `src/database.rs`: `BectorDB`, an index from document id to collection in
  front of a storage layer, with `read`, `create`, `update`, `upsert` and
  `delete`; the abstract state `DbState` and the laws that relate the
  operations.
- `src/services/storage_layer.rs`: the `StorageLayer` trait that storage
  back ends implement, and `InMemoryStorageLayer`.
- `src/models/`: documents, stored objects, collections and the error type.
- `src/collections/string_map.rs`: the string-keyed map that the in-memory
  storage is built on.
- `app/`: serde forms of the records, `Display` for errors, and a shared,
  lock-guarded handle with async operations.
