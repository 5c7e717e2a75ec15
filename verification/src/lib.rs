//! Presence inference: which watched application is in front, rendered as one
//! status line and handed to subscribers.

pub mod text;
pub mod watch;
pub mod scan;
pub mod enrichment;
pub mod render;
pub mod signature;
pub mod cache;
pub mod order;
pub mod lookup;
pub mod scheduler;
pub mod distributor;
pub mod config;
