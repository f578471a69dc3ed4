//! Verified core of an on-the-fly image resizing CDN: request parameter
//! validation, URL signing, cache keys and the decisions taken by the HTTP
//! layer around them.

pub mod utils;
pub mod model;
pub mod middleware;
pub mod handler;
pub mod storage;
pub mod service;
