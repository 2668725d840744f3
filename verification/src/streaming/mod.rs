//! The synchronized RAOP multi-sender's pure core: audio geometry, targets,
//! PCM-domain transforms, WAV framing, the live PCM tee and per-receiver
//! controls.

pub mod model;
pub mod sync;
pub mod wav;
pub mod live;
pub mod engine;
pub mod sidecar;
