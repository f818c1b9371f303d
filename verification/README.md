# trdelnik

A testing toolkit for Solana programs written with Anchor, with its logic
verified by Verus.

- `src/` is the verified library:
  - `client::program_client_generator` generates the `program_client` crate's
    `lib.rs` from the description of the programs (`client::idl`);
  - `client::commander` plans the `cargo` and `rustfmt` runs, merges the
    `program_client` crate's dependencies into its `Cargo.toml` and reads the `use` statements
    that the user keeps in it;
  - `client::client` and `client::validator` hold what the RPC client and the
    local validator decide by themselves (data chunks, polling, paths, ports);
  - `fuzz::builder` keeps what a fuzz test builder has registered and lays
    out the handlers of a fuzzed sequence, `fuzz::writer`
    keeps the log of a fuzz run and reports the entries of a failed sequence,
    `fuzz::random` draws random inputs, `fuzz::commander` creates and runs
    fuzz tests;
  - `cli` holds the plain values of the command line.
- `tests/` runs the library on concrete values.
- `app/` is the part that talks to the outside world: the command line, files
  and processes, and the Solana cluster.
