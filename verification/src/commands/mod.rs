//! The decisions behind the frontend's commands: input validation, the auth
//! state machine's answers, the saved-device list edits and the payloads the
//! playback commands send. The command plumbing itself is the application's.

pub mod auth;
pub mod devices;
pub mod playback;
pub mod settings;
