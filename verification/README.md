# kasplex

The Kasplex extensions of an Ethereum execution client, as a Verus-verified
library.

- `src/tx_mapping.rs`: the transaction hash to submission block number
  registry, the deleted-transaction set and the pool reorg counter.
- `src/payload.rs`: Kasplex payload attributes, their validation and the
  payload id.
- `src/execution_payload.rs`: Kasplex execution payloads and the block
  conversions that carry transaction submission numbers.
- `src/txpool.rs`: transaction pool content by sender and nonce, with the
  effective-tip filter.
- `src/rpc.rs`: the decisions of the Kasplex RPC handlers.
- `src/treasury.rs`: the treasury address of a chain.
- `src/bytes.rs`: big-endian encodings and the key forms of hashes and
  addresses.
- `src/hashing.rs`: the calls into `sha2`, `alloy_primitives`, `alloy_rlp` and
  `alloy_eips`, with the contracts the library relies on.

`app/` holds what runs around the library: the lock-protected shared mapping,
the serde forms of the payload types and the JSON-RPC namespaces.
