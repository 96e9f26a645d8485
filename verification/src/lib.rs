//! Core logic of a live-dictation pipeline: recognition-token filtering,
//! transcript diffing, the protocol-session state machine, audio sample
//! conversion, handshake framing, and insertion scheduling.
pub mod audio;
pub mod insertion;
pub mod session;
pub mod settings;
pub mod token;
pub mod transcript;
pub mod wire;
