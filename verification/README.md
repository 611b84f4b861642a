# diesel_schemas

Schema switching for diesel connections: multi-tenant applications often keep
each tenant in its own PostgreSQL schema or MySQL database, and this library
moves a connection into one.

- `src/` is the verified library (Verus). It builds the SQL statements
  (`statement`), runs the protocol of one schema operation — create if
  needed, then switch, stopping at the first failing statement — as a state
  machine that hands out statements and takes their outcomes (`switch`), and
  keeps the set of schemas a pool has already created, so that later requests
  for them skip the `CREATE` (`cache`). The laws of these parts are proved
  there as public proof functions.
- `app/` implements the connection and pool traits for diesel and
  diesel-async connections: it executes the statements the library hands out,
  gets connections from the r2d2 pool, and guards the pool's set of schemas
  with a lock.
- `tests/` runs the library on concrete schema names.
