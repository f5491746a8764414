# stock_tracker

A desktop tracker for stock trades (egui front end, SQLite storage) whose
decision logic is written and proved in Verus.

- `src/` — the verified library
  - `text.rs`: Unicode whitespace, trimming, lower-casing, lexicographic order
  - `models.rs`: transaction kinds (`TxType`) and their stored words
  - `ledger.rs`: the order in which a ledger is replayed (stable by date)
  - `calendar.rs`: reading `YYYY-MM-DD` dates (through chrono)
  - `form.rs`: the input form, its validation and its resets
- `app/` — the program: window, SQLite access and the floating-point
  profit/loss accounting
- `tests/` — tests of the library
