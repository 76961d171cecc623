# xuper_rust_sdk

A XuperChain client library, verified with Verus, for applications that
run in a trusted execution environment.

The library (`src/`) decides everything about a transaction and proves it:

- `encoding`, `text`: base64, JSON string literals and decimal numbers as
  the transaction text writes them;
- `wallet`: the account, the transaction text that the digest and the id are
  computed from, the JSON forms of byte fields and byte maps, the nonce;
- `bignum`, `consts`: amounts of any size, reading decimal amounts, the clock;
- `ordmap`: maps of strings kept as entries sorted by key;
- `rpc`: the outputs and inputs of a payment, its change, the composition of
  the compliance-check transaction and of the real transaction, signing and
  endorsing them, and judging the node's answers;
- `contract`, `transfer`: the messages of contract calls and of payments;
- `laws`: properties that relate several of these functions.

`app/` holds what is not verified: reading `conf/sdk.yaml`, the serde forms
of the messages, the private key and hashing (through `xchain_crypto`), and
the calls to the node through a `ChainTransport`.

Tests: `tests/`.
