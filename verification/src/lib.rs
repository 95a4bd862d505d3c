//! Core of a proof-of-work mining coordinator: base-field arithmetic over the
//! Goldilocks prime together with the pure decision logic of the coordinator
//! pipeline (configuration parsing, wire encoding, candidate dispatch, kernel
//! pooling and statistics).

pub mod base;
pub mod base_optimized;
pub mod config;
pub mod dispatch;
pub mod fermat;
pub mod pool;
pub mod stats;
pub mod wire;
