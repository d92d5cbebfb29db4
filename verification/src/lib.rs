//! Verified core of the TPU client tooling: the connection cache and its
//! statistics, the serialization helpers for optional values, BIP32 path
//! parsing and key derivation, the decisions of the BigTable upload loop, and
//! the argument handling of the TPS benchmark client.

pub mod bench_cli;
pub mod bip32;
pub mod conditional_option;
pub mod connection_cache;
pub mod nonce;
pub mod option_serializer;
pub mod text;
pub mod timing;
pub mod upload_service;
