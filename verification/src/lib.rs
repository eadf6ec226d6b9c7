//! Core logic of a network-connected embedded device: a persistent
//! configuration store, wireless bring-up decisions, and a streaming
//! firmware-update ingestion pipeline.
//!
//! The flash hardware, the radio driver and the partition-flashing sink are
//! external collaborators; this crate holds the decisions and data handling
//! around them, with contracts checked by Verus.

pub mod bytesearch;
pub mod codec;
pub mod config;
pub mod form;
pub mod ota;
pub mod records;
pub mod store;
pub mod wifi_init;
