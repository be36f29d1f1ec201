//! Random asset service: an inventory of the files of one directory, a bounded
//! and time-limited content cache keyed by asset id, and the rules by which a
//! change of the directory replaces the inventory and empties the cache.

pub mod models;
pub mod services;
pub mod utils;
