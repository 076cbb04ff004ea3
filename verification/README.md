# cli_utils

What the commands of a command line client share, written in Verus.

- `src/` is the library. It reads, writes and waits for nothing itself: a function
  that decides what to do next returns a state that says so and takes what came of
  it as an event.
  - `text`: trimming, splitting and joining texts, numbers in decimal
  - `inline_map`: maps written on one line, such as `Name=Value,Name2=Value`
  - `json`: JSON values, and the string options that view functions return
  - `output`: what a command prints when it is done, and its telemetry event
  - `confirm`: asking the user for confirmation
  - `paths`: file names, directories, and the errors of reading and writing
  - `vanity`: account addresses that begin with a chosen prefix
  - `ledger`: requests to a node and to a faucet
  - `error`: the errors of commands
- `app/` does the inputs and outputs that the library asks for.
- `tests/` runs the library with the crates it calls.

Where the library calls another crate or a part of the standard library that has
no specification, a function with a trusted contract stands in between. Its
comment says which function it calls and what it claims of it.
