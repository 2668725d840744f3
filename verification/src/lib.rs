//! MusicSync core: the verified device-protocol, parsing and state logic behind
//! the LAN multiroom controller for LP10 streamers.

pub mod commands;
pub mod discovery;
pub mod error;
pub mod linkplay;
pub mod luci;
pub mod net;
pub mod poller;
pub mod spotify;
pub mod state;
pub mod store;
pub mod streaming;
pub mod text;
pub mod upnp;
