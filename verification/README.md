# snap_sync

The state machine of a snap synchronisation, written and proved in Verus.

A downloader goes through three phases: it downloads the accounts of a state, then the storage of
the accounts that have storage, then the bytecode that the accounts need. `src/` decides what to
ask peers for, takes their answers in, and forms batches of what was verified. It sends nothing
and waits for nothing: whoever drives it reports what happened, and is told what to do next.

- `src/model.rs` is the model: the state of a downloader, and what each step makes of it.
- `src/downloader.rs` is the downloader, proved to follow the model.
- `src/laws.rs` is what every step keeps, and `src/runs.rs` what holds of whole runs.
- `src/account.rs` and `src/rlp.rs` read accounts and storage values.
- `src/stage.rs` is the pipeline stage that takes the batches and gives them out to be written.
- `src/test_client.rs` is a client with prepared answers.
- `app/` is the ordinary Rust around it: clients, streams, the database and logs.

Range proofs are checked outside: the downloader says which proof is to be checked, and takes the
outcome. Accounts, and storage ranges with slots, are handed on only once a proof of them was found
valid; bytecode only where it has the hash that was asked for.
