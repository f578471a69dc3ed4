pub mod cache;
pub mod dedup;
pub mod processor;
