# db

A small columnar database engine written in Verus: tables of fixed-width
rows stored column by column in partitions with zone maps and sketches, a
catalog of tables, ASCII rendering of table contents, and the SQL front end
(parsing with the `sqlparser` crate into the library's statement model,
translation of a `SELECT`, binding against the catalog, logical and
physical planning).

- `src/` is the verified library. Every public function carries a contract
  over spec models (`Seq`, `Map` and closed spec accessors of the library's
  types); the laws that relate several operations are public proof
  functions next to them.
- `tests/` exercises the library on concrete values.
- `app/` holds the programs around it: the demo binaries, the command-line
  planning flow, and the TCP server.
