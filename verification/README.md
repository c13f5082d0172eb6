# bluedger

A dashboard for a `ledger` bookkeeping file: an HTTP server reads and writes
the ledger files and asks `ledger` for balances, and an egui page shows the
file, the current figures and yearly plots.

The logic is a Verus-verified library under `src/`:

- `decimal`: writing and reading unsigned decimal numbers.
- `calendar`: month lengths, previous month, the months of a yearly plot,
  date texts and the labels of the plots' month axis.
- `report`: reading the text of a ledger balance report into rows.
- `files`: where each ledger file is kept, and file requests typed as text.
- `ledger`: the arguments of each `ledger` run and the dates it asks for.
- `dashboard`: what each frame of the dashboard fetches and rebuilds.

`app/` holds the server (axum, tokio), the egui dashboard and the JSON
messages with their floats; `tests/` runs the library on concrete values.
