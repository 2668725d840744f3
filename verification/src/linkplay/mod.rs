//! The Linkplay HTTP API layer: typed commands and the single place their
//! syntax is written, the hex-or-plain text heuristic, and the device models
//! the frontend renders.

pub mod client;
pub mod hexstr;
pub mod models;
