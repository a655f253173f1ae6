//! Price-gated NFT issuance: a registry of price feeds per denomination, and an
//! issuer that converts a payment through a live price before minting.

pub mod batch;
pub mod error;
pub mod feed;
pub mod fixed;
pub mod oracle_helper;
pub mod order;
