//! Core of an on-device chat client: bounded text buffers, the chat wire
//! codec, the touch decoder, the WiFi connection state machine and the
//! session logic of the remote chat client.
pub mod client;
pub mod codec;
pub mod pins;
pub mod protocol;
pub mod text;
pub mod touch;
pub mod wifi;
