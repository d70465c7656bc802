//! Kasplex extensions to an Ethereum execution client: the transaction-hash to
//! block-number registry, payload attributes and payload identifiers, the
//! execution-payload block conversions, transaction-pool content and the
//! treasury address.

pub mod bytes;
pub mod execution_payload;
pub mod hashing;
pub mod payload;
pub mod rpc;
pub mod treasury;
pub mod tx_mapping;
pub mod txpool;
