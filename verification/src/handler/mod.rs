pub mod cache;
pub mod image;
