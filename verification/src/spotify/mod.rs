//! The Spotify Connect capture's verified core: now-playing metadata mapping,
//! PCM serialisation for the capture sink, and the mirrored endpoint state with
//! the event transitions that drive it.

pub mod meta;
pub mod sink;
pub mod state;
