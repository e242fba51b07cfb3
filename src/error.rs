//! Errors of a streaming session.
use vstd::prelude::*;

verus! {

/// What can go wrong in a session; each kind has one recovery policy.
#[derive(Clone, Debug, PartialEq, Eq)]
pub enum SessionError {
    /// A control-channel frame could not be read; it is dropped.
    ControlChannelDecode,
    /// The gateway could not be reached, or refused the upgrade.
    GatewayUnavailable,
    /// The gateway connection failed or closed mid-session.
    GatewayTransport,
    /// The gateway does not offer the required encryption mode.
    UnsupportedEncryption,
    /// The media engine could not be set up.
    MediaEngineSetup,
    /// A fragment the answer needs is missing; names the fragment.
    SdpComposition(String),
}

} // verus!
