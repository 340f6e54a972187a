//! Deduplicated, bounded dispatch of pending game turns to move engines.

pub mod dispatcher;
pub mod engine;
pub mod fingerprint;
pub mod pipeline;
pub mod producer;
pub mod tracker;
pub mod turn;
pub mod worker;
