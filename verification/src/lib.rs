//! Verified core of the Hermes usage dashboard server.
use vstd::prelude::*;

pub mod buckets;
pub mod clock;
pub mod history;
pub mod labels;
pub mod pool;
pub mod sessions;
pub mod stats;
pub mod text;
pub mod types;
