# transaction_processor

A payments engine: deposits, withdrawals, disputes, resolves and chargebacks change the accounts of
clients. The rules are verified with Verus.

- `src/` is the verified library.
  - `amount` holds decimal amounts, backed by `rust_decimal`.
  - `domain` holds transactions and accounts, and what each event does to an account.
  - `ledger` states the rules as mathematics.
  - `ports` declares what a storage promises; `storage` has one in memory.
  - `sources` routes transactions to channels and decides what becomes of each row of a CSV file.
  - `processor` applies transactions to a storage, and holds the settings of a processor.
  - `paging` and `report` list the accounts.
  - `laws` proves what follows from the rules: consistency, idempotence, the balance of the books,
    that each channel gets the rows of its clients in the order of the file, that the interleaving
    of the workers makes no difference as long as no id is used by deposits or withdrawals on two
    channels, and that an account is what the transactions of its own client alone lead to as long
    as no id is used by deposits or withdrawals of two clients.
- `app/` is the program around it: arguments, the asynchronous CSV reader, channels and workers.
- `tests/` runs the library on concrete values.

What is trusted rather than proved: the contracts of the `rust_decimal` calls in `amount`, of the
hashing of a key in `sources`, and of the count of logical CPUs in `processor`. Each is stated above
the function that makes the call.
