# Haruka

A personal ledger for one user: accounts in several currencies, bills, transfers, debts,
instalments, subscriptions, budgets and recurring investments. Amounts and texts are kept encrypted
under a data key that only a password, a recovery phrase or a passkey unlocks.

- `src/` is the library. Every function in it is verified with Verus against its contract. Handlers
  take the rows that they need and the time as arguments, and give back the rows to store and the
  values to show.
- `tests/` runs the library on concrete values.
- `app/` is the service around it: routes, the database, and requests to other services.

| module | what it holds |
| --- | --- |
| `text`, `decimal`, `calendar` | texts, decimal numbers, days and times |
| `crypto`, `token`, `chain` | encryption, tokens in links, digests over lists |
| `totals`, `tally`, `order`, `filter`, `ranking`, `book` | sums, orders and lookups |
| `currency`, `market_data` | exchange rates, indexes and smart investments |
| `config`, `sessions`, `db` | the start of the service, sessions, the set-up of the database |
| `entity` | the rows that are stored |
| `handlers` | what the service does, one module for each part of the ledger |

What outside crates compute is named by spec functions without bodies; the functions that call these
crates say in their comments what is taken for granted.
