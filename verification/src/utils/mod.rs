pub mod hash;
pub mod hexcode;
pub mod sign;
pub mod text;
