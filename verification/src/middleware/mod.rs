pub mod origin;
pub mod signature;
