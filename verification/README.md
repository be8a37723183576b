# alpamayo

The decisions of a Solana RPC node that serves recent blocks and transactions
from its own storage, and asks other nodes for what the storage does not have.
The library is written in Verus: its functions state what they return or
change, and the statements are proved. What other crates compute is taken as
their contracts say; where a contract leaves something open, as of the feature
set that belongs to the version, its comment says so.

## Layout

`src/` is the library. It does no input or output: it takes plain values and
returns plain values.

- `text` reads and writes decimal numbers, trims and searches texts.
- `inspector` computes what the storage inspector shows.
- `rpc` holds the requests.
  - `state` is what requests share: the configuration, the other nodes, the
    stored slots.
  - `action` is what a request asks for, what comes back, and what it does
    next.
  - `jsonrpc` is what a request is answered, down to the bytes but for blocks,
    transactions and pages, which `app/` writes.
  - `keys`, `params` and `records` read addresses, signatures, hashes, options
    and the answers of other nodes.
  - `block`, `transaction`, `signatures` and `cluster` are the requests that ask
    once or twice.
  - `gtfa` fills pages of the transactions of an address.
  - `inflation` collects the rewards of an epoch from blocks.
  - `work` is what comes of encoding a block or a transaction.
- `source::transaction` finds the addresses that a transaction concerns.
- `storage::source` decides when and from where the block stream is connected
  again.

Functions whose names begin with `law_` state what holds of several functions
together, such as that the token of a page brings back the place where the next
one goes on. Functions that call other crates are marked
`#[verifier::external_body]`; what they are taken to do is in their contracts.

`tests/` runs the library on examples. `app/` is the program around it: it reads
parameters, asks the storage and other nodes as the library says, and runs the
inspector.
