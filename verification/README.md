# minotari

The part of a wallet that looks after its outputs: it stores outputs that were found on the chain,
follows them through confirmation, spending and chain reorganisations, adds up balances, and locks
funds for transactions that are being built.

- `src/` is the library, verified with Verus. It works on tables in memory (`db::tables`); every
  public function states in its contract what it returns and how it changes the tables.
  - `models`, `wallet_output`, `amounts`: the values that everything else is made of.
  - `db`: the tables, the queries on them, and (`db::laws`) what holds of them as a whole.
  - `transactions`: choosing outputs and locking them, and (`transactions::laws`) what holds of that.
  - `bindings`: the calls into other crates, with what the library relies on.
- `tests/` runs the library.
- `app/` puts the library on top of an SQLite database.
