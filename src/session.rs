//! The session controller: one session per process, started and stopped on
//! the control channel's commands.
use vstd::prelude::*;
use crate::control::{ice_server_spec, ice_servers, IceServer, SocketListenerCommand};
use crate::frames::API_VERSION;
use crate::media::{H264Settings, VideoEncoderType};
use crate::negotiation::SessionParams;
use crate::sdp::owned;
use crate::text::{dec, push_str, write_dec};

verus! {

/// Milliseconds between two previews of the streamed window.
pub const PREVIEW_PERIOD_MS: u64 = 600_000;

/// The gateway URL for an endpoint: `wss://<endpoint>/?v=7`.
pub open spec fn gateway_url_spec(endpoint: Seq<char>) -> Seq<char> {
    "wss://"@ + endpoint + "/?v="@ + dec(API_VERSION as nat)
}

/// The gateway URL for an endpoint.
pub fn gateway_url(endpoint: &str) -> (r: String)
    ensures
        r@ == gateway_url_spec(endpoint@),
{
    let mut r = owned("wss://");
    push_str(&mut r, endpoint);
    push_str(&mut r, "/?v=");
    write_dec(&mut r, API_VERSION as u64);
    r
}

/// Whether a gateway upgrade answered with `status` succeeded; anything but
/// 101 leaves the gateway unavailable.
pub fn upgrade_succeeded(status: u16) -> (r: bool)
    ensures
        r == (status == 101),
{
    status == 101
}

/// What the daemon needs to open a session.
#[derive(Clone, Debug, PartialEq, Eq)]
pub struct SessionStart {
    pub gateway_url: String,
    pub params: SessionParams,
    pub ice_servers: Vec<IceServer>,
    /// Process whose audio is captured.
    pub pid: u32,
    /// Window whose video is captured.
    pub xid: u32,
}

/// What the controller asks the daemon to do.
#[derive(Clone, Debug, PartialEq, Eq)]
pub enum ControlAction {
    /// Open a session.
    StartSession(SessionStart),
    /// A session runs already; the request is refused.
    RejectStart,
    /// Tear the running session down.
    StopSession,
    /// Tell the plugin the stream stopped.
    PublishStreamStop,
    /// Find which of these windows can have their sound captured.
    ResolveApplications(Vec<u32>),
}

/// The controller's state.
#[derive(Clone, Copy, Debug, PartialEq, Eq)]
pub struct Controller {
    /// A session runs.
    pub session_active: bool,
    /// When the last preview was taken, in milliseconds on the daemon's clock.
    pub last_preview_ms: Option<u64>,
}

impl Controller {
    pub fn new() -> (r: Self)
        ensures
            r == (Controller { session_active: false, last_preview_ms: None }),
    {
        Controller { session_active: false, last_preview_ms: None }
    }

    /// Ends a session whose start failed; nothing is published.
    pub fn start_failed(&mut self)
        ensures
            *final(self) == (Controller { session_active: false, ..*old(self) }),
    {
        self.session_active = false;
    }

    /// Handles one command.
    pub fn handle(&mut self, cmd: SocketListenerCommand) -> (acts: Vec<ControlAction>)
        ensures
            cmd is StartStream ==> if old(self).session_active {
                *final(self) == *old(self) && acts@ == seq![ControlAction::RejectStart]
            } else {
                &&& final(self).session_active
                &&& final(self).last_preview_ms is None
                &&& acts@.len() == 1
                &&& acts@[0] matches ControlAction::StartSession(st) && start_matches(cmd, st)
            },
            cmd is StopStream ==> {
                &&& !final(self).session_active
                &&& final(self).last_preview_ms == old(self).last_preview_ms
                &&& acts@ == if old(self).session_active { seq![ControlAction::StopSession] } else { Seq::empty() }
            },
            cmd is StopStreamInternal ==> {
                &&& !final(self).session_active
                &&& final(self).last_preview_ms == old(self).last_preview_ms
                &&& acts@ == if old(self).session_active {
                    seq![ControlAction::StopSession, ControlAction::PublishStreamStop]
                } else {
                    seq![ControlAction::PublishStreamStop]
                }
            },
            cmd matches SocketListenerCommand::GetInfo { xids } ==> *final(self) == *old(self)
                && acts@ == seq![ControlAction::ResolveApplications(xids)],
    {
        match cmd {
            SocketListenerCommand::StartStream {
                pid, xid, resolution, framerate, server_id, user_id, token, session_id,
                rtc_connection_id, endpoint, ip: _, ice,
            } => {
                if self.session_active {
                    return vec![ControlAction::RejectStart];
                }
                self.session_active = true;
                self.last_preview_ms = None;
                let st = SessionStart {
                    gateway_url: gateway_url(endpoint.as_str()),
                    params: SessionParams {
                        server_id,
                        session_id,
                        token,
                        user_id,
                        rtc_connection_id,
                        resolution,
                        framerate,
                        encoder: VideoEncoderType::H264(H264Settings { nvidia_encoder: false }),
                    },
                    ice_servers: ice_servers(&ice),
                    pid,
                    xid,
                };
                vec![ControlAction::StartSession(st)]
            },
            SocketListenerCommand::StopStream => {
                let was = self.session_active;
                self.session_active = false;
                if was { vec![ControlAction::StopSession] } else { Vec::new() }
            },
            SocketListenerCommand::StopStreamInternal => {
                let was = self.session_active;
                self.session_active = false;
                if was {
                    vec![ControlAction::StopSession, ControlAction::PublishStreamStop]
                } else {
                    vec![ControlAction::PublishStreamStop]
                }
            },
            SocketListenerCommand::GetInfo { xids } => {
                vec![ControlAction::ResolveApplications(xids)]
            },
        }
    }

    /// Whether a preview of the streamed window is due at `now_ms`: while a
    /// session runs, at once and then every ten minutes.
    pub fn preview_due(&self, now_ms: u64) -> (r: bool)
        ensures
            r == (self.session_active && match self.last_preview_ms {
                None => true,
                Some(last) => now_ms >= last && now_ms - last > PREVIEW_PERIOD_MS,
            }),
    {
        if !self.session_active {
            return false;
        }
        match self.last_preview_ms {
            None => true,
            Some(last) => now_ms >= last && now_ms - last > PREVIEW_PERIOD_MS,
        }
    }

    /// Records a preview taken at `now_ms`.
    pub fn preview_taken(&mut self, now_ms: u64)
        ensures
            *final(self) == (Controller { last_preview_ms: Some(now_ms), ..*old(self) }),
    {
        self.last_preview_ms = Some(now_ms);
    }
}

/// The session a StartStream request opens: its identity, limits and ICE
/// servers, the H264 encoder, and the gateway URL of its endpoint.
pub open spec fn start_matches(cmd: SocketListenerCommand, st: SessionStart) -> bool {
    match cmd {
        SocketListenerCommand::StartStream {
            pid, xid, resolution, framerate, server_id, user_id, token, session_id,
            rtc_connection_id, endpoint, ip: _, ice,
        } => {
            &&& st.gateway_url@ == gateway_url_spec(endpoint@)
            &&& st.params.server_id == server_id && st.params.session_id == session_id
            &&& st.params.token == token && st.params.user_id == user_id
            &&& st.params.rtc_connection_id == rtc_connection_id
            &&& st.params.resolution == resolution && st.params.framerate == framerate
            &&& st.params.encoder == VideoEncoderType::H264(H264Settings { nvidia_encoder: false })
            &&& st.pid == pid && st.xid == xid
            &&& st.ice_servers.len() == ice.urls.len()
            &&& forall|i: int| 0 <= i < st.ice_servers.len() ==> ice_server_spec(
                (#[trigger] ice.urls@[i])@, ice.username@, ice.credential@, st.ice_servers@[i])
        },
        _ => false,
    }
}

} // verus!
