//! The local control channel: requests from the browser plugin, what is
//! published back, and the controller that admits one session at a time.
use vstd::prelude::*;
use crate::sdp::{has_prefix, owned, starts_with};
use crate::text::{chars_of, dec, write_dec};

verus! {

/// Requested stream resolution.
#[derive(Clone, Copy, Debug, PartialEq, Eq)]
pub struct StreamResolutionInformation {
    pub width: u16,
    pub height: u16,
    /// Whether the stream resolution is held fixed.
    pub is_fixed: bool,
}

/// ICE servers handed over by the plugin, with the credentials for TURN.
#[derive(Clone, Debug, PartialEq, Eq)]
pub struct IceData {
    pub urls: Vec<String>,
    pub username: String,
    pub credential: String,
}

/// Commands from the browser plugin, and the one the gateway listener injects.
#[derive(Clone, Debug, PartialEq, Eq)]
pub enum SocketListenerCommand {
    /// Starts a new stream.
    StartStream {
        /// Process whose audio is captured.
        pid: u32,
        /// Window whose video is captured.
        xid: u32,
        resolution: StreamResolutionInformation,
        framerate: u8,
        server_id: String,
        user_id: String,
        /// Voice access token.
        token: String,
        session_id: String,
        rtc_connection_id: String,
        /// Gateway host.
        endpoint: String,
        ip: String,
        ice: IceData,
    },
    /// Stops the running stream.
    StopStream,
    /// The gateway closed the stream; the plugin is told.
    StopStreamInternal,
    /// Asks which of these windows can have their sound captured.
    GetInfo { xids: Vec<u32> },
}

/// A window whose sound can be captured.
#[derive(Clone, Debug, PartialEq, Eq)]
pub struct Application {
    pub name: String,
    pub pid: u32,
    pub xid: u32,
}

/// Published when the stream stopped on the gateway's side.
#[derive(Clone, Copy, Debug, PartialEq, Eq)]
pub struct StreamStop {}

/// A thumbnail of the streamed window, as base64 of a JPEG.
#[derive(Clone, Debug, PartialEq, Eq)]
pub struct StreamPreview {
    pub jpg: String,
}

/// The control channel could not be opened.
#[derive(Clone, Copy, Debug, PartialEq, Eq)]
pub enum SocketListenerCreationError {
    /// The port could not be bound on localhost.
    UnableToBindPort(u16),
}

impl SocketListenerCreationError {
    /// A description for the log.
    pub fn message(&self) -> (r: String)
        ensures
            self matches SocketListenerCreationError::UnableToBindPort(p)
                && r@ == "Unable to bind to localhost on port "@ + dec(p as nat),
    {
        match self {
            SocketListenerCreationError::UnableToBindPort(p) => {
                let mut r = owned("Unable to bind to localhost on port ");
                write_dec(&mut r, *p as u64);
                r
            },
        }
    }
}

/// An ICE server for the media engine.
#[derive(Clone, Debug, PartialEq, Eq)]
pub enum IceServer {
    /// A STUN server; its URL passes through unchanged.
    Stun(String),
    /// A TURN server and the credentials it takes.
    Turn { url: String, username: String, credential: String },
    /// A URL of another scheme; the media engine is not given it.
    Unsupported(String),
}

/// The ICE server a URL stands for, given the request's TURN credentials.
pub open spec fn ice_server_spec(url: Seq<char>, username: Seq<char>, credential: Seq<char>, s: IceServer) -> bool {
    if starts_with(url, "stun:"@) {
        s matches IceServer::Stun(u) && u@ == url
    } else if starts_with(url, "turn:"@) {
        s matches IceServer::Turn { url: u, username: n, credential: c } && u@ == url && n@ == username && c@ == credential
    } else {
        s matches IceServer::Unsupported(u) && u@ == url
    }
}

/// Classifies the request's ICE URLs by scheme, one server per URL.
pub fn ice_servers(ice: &IceData) -> (r: Vec<IceServer>)
    ensures
        r.len() == ice.urls.len(),
        forall|i: int| 0 <= i < r.len() ==> ice_server_spec(
            (#[trigger] ice.urls@[i])@, ice.username@, ice.credential@, r@[i]),
{
    let stun = chars_of("stun:");
    let turn = chars_of("turn:");
    let mut r: Vec<IceServer> = Vec::new();
    let mut i: usize = 0;
    while i < ice.urls.len()
        invariant
            i <= ice.urls.len(),
            r.len() == i,
            stun@ == "stun:"@,
            turn@ == "turn:"@,
            forall|k: int| 0 <= k < i ==> ice_server_spec(
                (#[trigger] ice.urls@[k])@, ice.username@, ice.credential@, r@[k]),
        decreases ice.urls.len() - i,
    {
        let url = &ice.urls[i];
        let cs = chars_of(url.as_str());
        let s = if has_prefix(&cs, &stun) {
            IceServer::Stun(url.clone())
        } else if has_prefix(&cs, &turn) {
            IceServer::Turn {
                url: url.clone(),
                username: ice.username.clone(),
                credential: ice.credential.clone(),
            }
        } else {
            IceServer::Unsupported(url.clone())
        };
        r.push(s);
        i = i + 1;
    }
    r
}

} // verus!
