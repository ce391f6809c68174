//! A proxy for the RPC requests of a Solana validator.
//!
//! The proxy checks the caller's token, lets through the few methods that it serves, hands the
//! requests on to the validator, and sends transactions straight to the nodes that lead the
//! coming slots. This library holds its rules: what is done with a request, how a transaction is
//! read, whom it is sent to, and how the lists of addresses are kept up to date. It does no input
//! or output of its own: its functions take what came in and give what is to be done next.
//!
//! - [`json`], [`rpc`], [`text`]: JSON values, requests and replies, the token, and strings.
//! - [`base58`], [`codec`], [`transaction`]: finding, decoding and reading a transaction.
//! - [`address`], [`cluster`]: socket addresses, and the choice among the cluster's nodes.
//! - [`refresh`], [`validators`]: the renewal of the lists of addresses and of Jito validators.
//! - [`proxy`], [`jito`], [`tpu`], [`health`]: the endpoints.

pub mod address;
pub mod base58;
pub mod cluster;
pub mod codec;
pub mod health;
pub mod jito;
pub mod json;
pub mod proxy;
pub mod refresh;
pub mod rpc;
pub mod text;
pub mod tpu;
pub mod transaction;
pub mod validators;
