//! Catch-up chain synchronization: height negotiation, hash-manifest
//! retrieval, and a bounded-window block fetch pipeline that applies
//! completed blocks to chain state in completion order.

pub mod chain_model;
pub mod driver;
pub mod manifest;
pub mod migrate;
pub mod negotiate;
pub mod peer_model;
pub mod pipeline;
pub mod tui_view;
pub mod types;
