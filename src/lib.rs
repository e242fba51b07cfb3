//! Signaling and negotiation engine for publishing a screen and audio stream
//! to a voice/video gateway: frame codec, heartbeat bookkeeping, the answer
//! SDP composer, the negotiation state machine and the session controller.

pub mod text;
pub mod codec;
pub mod control;
pub mod frames;
pub mod heartbeat;
pub mod desktop;
pub mod error;
pub mod media;
pub mod negotiation;
pub mod sdp;
pub mod session;
