# Solana proxy

A proxy in front of a Solana validator. It asks callers for a token, lets `sendTransaction`,
`simulateTransaction` and `getLatestBlockhash` through and blocks every other method, and sends
transactions over UDP straight to the nodes that lead the coming slots. Where that fails, a
transaction goes through the validator instead. A second endpoint sends transactions to the Jito
leaders only: to leaders that are on the list of Jito validators.

- `src/` holds the rules, verified with Verus: each function states what it returns, and the laws
  that span functions are public proof functions beside them.
- `app/` is the server around them: arguments, HTTP, UDP, the cluster's RPC interface, and the
  background tasks.
- `tests/` runs the library on concrete values, with the outside crates linked.

What the library takes from outside crates (base64, base58, the wire form of transactions, how
keys, signatures and times are written) stands behind small wrappers whose doc comments say what
is taken on trust.
