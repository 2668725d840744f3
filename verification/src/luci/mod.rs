//! The LibreWireless Luci control protocol: frame codec, command catalog and
//! typed payload models.

pub mod client;
pub mod codec;
pub mod messagebox;
pub mod model;
