//! Payloads of the gateway frames, and the builders of each outbound one.
use vstd::prelude::*;
use crate::codec::{
    OP_HEARTBEAT, OP_IDENTIFY, OP_SELECT_PROTOCOL, OP_SPEAKING, OP_STREAM_INFO,
};
use crate::control::StreamResolutionInformation;
use crate::media::{codec_name_spec, StreamSSRCs, VideoEncoderType};
use crate::sdp::owned;

verus! {

/// The bitrate cap announced for the video stream.
pub const MAX_BITRATE: u32 = 1_000_000;

/// The gateway protocol version spoken.
pub const API_VERSION: u8 = 7;

/// Resolution limit of a stream, as the gateway spells it.
#[derive(Clone, Debug, PartialEq, Eq)]
pub struct GatewayResolution {
    /// `"fixed"` or `"source"`.
    pub resolution_type: String,
    pub width: u16,
    pub height: u16,
}

impl GatewayResolution {
    /// The limit for a requested resolution: fixed when the request is fixed,
    /// else following the source.
    pub fn from_socket_info(info: StreamResolutionInformation) -> (r: Self)
        ensures
            r.resolution_type@ == (if info.is_fixed { "fixed"@ } else { "source"@ }),
            r.width == info.width,
            r.height == info.height,
    {
        GatewayResolution {
            resolution_type: if info.is_fixed { owned("fixed") } else { owned("source") },
            width: info.width,
            height: info.height,
        }
    }
}

/// One stream as announced in Identify, Ready and StreamInfo.
#[derive(Clone, Debug, PartialEq, Eq)]
pub struct GatewayStream {
    pub stream_type: String,
    /// Always the string `"100"`, never a number.
    pub rid: String,
    pub quality: u8,
    pub active: Option<bool>,
    pub ssrc: Option<u32>,
    pub rtx_ssrc: Option<u32>,
    pub max_bitrate: Option<u32>,
    pub max_framerate: Option<u8>,
    pub max_resolution: Option<GatewayResolution>,
}

/// Identify (opcode 0).
#[derive(Clone, Debug, PartialEq, Eq)]
pub struct OpCode0 {
    pub server_id: String,
    pub session_id: String,
    pub streams: Vec<GatewayStream>,
    pub token: String,
    pub user_id: String,
    pub video: bool,
}

#[derive(Clone, Copy, Debug, PartialEq, Eq)]
pub enum PayloadType {
    Audio,
    Video,
}

/// A codec offered in SelectProtocol.
#[derive(Clone, Debug, PartialEq, Eq)]
pub struct GatewayCodec {
    pub name: String,
    pub codec_type: PayloadType,
    pub priority: u16,
    pub payload_type: u8,
    pub rtx_payload_type: Option<u8>,
}

/// SelectProtocol (opcode 1).
#[derive(Clone, Debug, PartialEq, Eq)]
pub struct OpCode1 {
    pub protocol: String,
    pub rtc_connection_id: String,
    pub codecs: Vec<GatewayCodec>,
    pub data: String,
    pub sdp: String,
}

/// Ready (opcode 2).
#[derive(Clone, Debug, PartialEq, Eq)]
pub struct OpCode2 {
    pub ip: String,
    pub port: u16,
    /// Encryption modes the server supports.
    pub modes: Vec<String>,
    pub ssrc: u32,
    pub streams: Vec<GatewayStream>,
}

/// Heartbeat (opcode 3) and its acknowledgement (opcode 6): the nonce.
#[derive(Clone, Copy, Debug, PartialEq, Eq)]
pub struct OpCode3_6 {
    pub d: u64,
}

#[derive(Clone, Copy, Debug, PartialEq, Eq)]
pub enum AudioCodec {
    Opus,
}

/// SessionDescription (opcode 4).
#[derive(Clone, Debug, PartialEq, Eq)]
pub struct OpCode4 {
    pub audio_codec: AudioCodec,
    pub media_session_id: String,
    /// The remote fragments, as a partial SDP.
    pub sdp: String,
    pub video_codec: String,
}

/// Speaking (opcode 5).
#[derive(Clone, Copy, Debug, PartialEq, Eq)]
pub struct OpCode5 {
    /// Written on the wire as 1 or 0.
    pub speaking: bool,
    pub delay: u8,
    pub ssrc: u32,
}

/// Hello (opcode 8).
#[derive(Clone, Copy, Debug, PartialEq, Eq)]
pub struct OpCode8 {
    /// Milliseconds between heartbeats.
    pub heartbeat_interval: u64,
    pub v: u8,
}

/// StreamInfo (opcode 12).
#[derive(Clone, Debug, PartialEq, Eq)]
pub struct OpCode12 {
    pub audio_ssrc: u32,
    pub rtx_ssrc: u32,
    pub video_ssrc: u32,
    pub streams: Vec<GatewayStream>,
}

/// Flags (opcode 15); its meaning is not documented.
#[derive(Clone, Copy, Debug, PartialEq, Eq)]
pub struct OpCode15 {
    pub any: u8,
}

/// Versions (opcode 16).
#[derive(Clone, Debug, PartialEq, Eq)]
pub struct OpCode16 {
    pub voice: String,
    pub rtc_worker: String,
}

/// A frame this client sends.
#[derive(Clone, Debug, PartialEq, Eq)]
pub enum OutgoingWebsocketMessage {
    OpCode0(OpCode0),
    OpCode1(OpCode1),
    OpCode3(OpCode3_6),
    OpCode5(OpCode5),
    OpCode12(OpCode12),
}

pub open spec fn outgoing_op(m: OutgoingWebsocketMessage) -> u8 {
    match m {
        OutgoingWebsocketMessage::OpCode0(_) => 0,
        OutgoingWebsocketMessage::OpCode1(_) => 1,
        OutgoingWebsocketMessage::OpCode3(_) => 3,
        OutgoingWebsocketMessage::OpCode5(_) => 5,
        OutgoingWebsocketMessage::OpCode12(_) => 12,
    }
}

impl OutgoingWebsocketMessage {
    /// The opcode this frame is sent with.
    pub fn op(&self) -> (r: u8)
        ensures
            r == outgoing_op(*self),
    {
        match self {
            OutgoingWebsocketMessage::OpCode0(_) => OP_IDENTIFY,
            OutgoingWebsocketMessage::OpCode1(_) => OP_SELECT_PROTOCOL,
            OutgoingWebsocketMessage::OpCode3(_) => OP_HEARTBEAT,
            OutgoingWebsocketMessage::OpCode5(_) => OP_SPEAKING,
            OutgoingWebsocketMessage::OpCode12(_) => OP_STREAM_INFO,
        }
    }
}

/// A frame the gateway sends.
#[derive(Clone, Debug, PartialEq, Eq)]
pub enum IncomingWebsocketMessage {
    OpCode2(OpCode2),
    OpCode4(OpCode4),
    OpCode6(OpCode3_6),
    OpCode8(OpCode8),
    OpCode15(OpCode15),
    OpCode16(OpCode16),
}

/// The stream announced in Identify.
pub open spec fn is_screen_stream(s: GatewayStream) -> bool {
    &&& s.stream_type@ == "screen"@
    &&& s.rid@ == "100"@
    &&& s.quality == 100
    &&& s.active is None && s.ssrc is None && s.rtx_ssrc is None
    &&& s.max_bitrate is None && s.max_framerate is None && s.max_resolution is None
}

/// Builds Identify: the session's identity and one screen stream.
pub fn identify(server_id: String, session_id: String, token: String, user_id: String) -> (r: OpCode0)
    ensures
        r.server_id == server_id,
        r.session_id == session_id,
        r.token == token,
        r.user_id == user_id,
        r.video,
        r.streams.len() == 1,
        is_screen_stream(r.streams[0]),
{
    OpCode0 {
        server_id,
        session_id,
        streams: vec![GatewayStream {
            stream_type: owned("screen"),
            rid: owned("100"),
            quality: 100,
            active: None,
            ssrc: None,
            rtx_ssrc: None,
            max_bitrate: None,
            max_framerate: None,
            max_resolution: None,
        }],
        token,
        user_id,
        video: true,
    }
}

/// The stream announced in StreamInfo.
pub open spec fn is_video_stream(s: GatewayStream, ssrcs: StreamSSRCs, res: GatewayResolution, framerate: u8, active: bool) -> bool {
    &&& s.stream_type@ == "video"@
    &&& s.rid@ == "100"@
    &&& s.quality == 100
    &&& s.active == Some(active)
    &&& s.ssrc == Some(ssrcs.video)
    &&& s.rtx_ssrc == Some(ssrcs.rtx)
    &&& s.max_bitrate == Some(MAX_BITRATE)
    &&& s.max_framerate == Some(framerate)
    &&& s.max_resolution == Some(res)
}

/// Builds StreamInfo: the sources and the limits of the one video stream.
pub fn stream_information(ssrcs: StreamSSRCs, max_resolution: GatewayResolution, max_framerate: u8, active: bool) -> (r: OpCode12)
    ensures
        r.audio_ssrc == ssrcs.audio,
        r.rtx_ssrc == ssrcs.rtx,
        r.video_ssrc == ssrcs.video,
        r.streams.len() == 1,
        is_video_stream(r.streams[0], ssrcs, max_resolution, max_framerate, active),
{
    OpCode12 {
        audio_ssrc: ssrcs.audio,
        rtx_ssrc: ssrcs.rtx,
        video_ssrc: ssrcs.video,
        streams: vec![GatewayStream {
            stream_type: owned("video"),
            rid: owned("100"),
            quality: 100,
            active: Some(active),
            ssrc: Some(ssrcs.video),
            rtx_ssrc: Some(ssrcs.rtx),
            max_bitrate: Some(MAX_BITRATE),
            max_framerate: Some(max_framerate),
            max_resolution: Some(max_resolution),
        }],
    }
}

/// Builds Speaking: speaking, delay 5, source 0.
pub fn speaking_message() -> (r: OpCode5)
    ensures
        r == (OpCode5 { speaking: true, delay: 5, ssrc: 0 }),
{
    OpCode5 { speaking: true, delay: 5, ssrc: 0 }
}

/// Builds SelectProtocol: WebRTC, Opus on 111 and the video codec on the
/// offer's payload types, with the local offer as both `data` and `sdp`.
pub fn select_protocol(
    rtc_connection_id: String,
    encoder: VideoEncoderType,
    video_payload_type: u8,
    rtx_payload_type: u8,
    local_sdp: String,
) -> (r: OpCode1)
    ensures
        r.protocol@ == "webrtc"@,
        r.rtc_connection_id == rtc_connection_id,
        r.codecs.len() == 2,
        r.codecs[0].name@ == "opus"@,
        r.codecs[0].codec_type == PayloadType::Audio,
        r.codecs[0].priority == 1000,
        r.codecs[0].payload_type == 111,
        r.codecs[0].rtx_payload_type is None,
        r.codecs[1].name@ == codec_name_spec(encoder),
        r.codecs[1].codec_type == PayloadType::Video,
        r.codecs[1].priority == 1000,
        r.codecs[1].payload_type == video_payload_type,
        r.codecs[1].rtx_payload_type == Some(rtx_payload_type),
        r.data@ == local_sdp@,
        r.sdp == local_sdp,
{
    let data = local_sdp.clone();
    OpCode1 {
        protocol: owned("webrtc"),
        rtc_connection_id,
        codecs: vec![
            GatewayCodec {
                name: owned("opus"),
                codec_type: PayloadType::Audio,
                priority: 1000,
                payload_type: 111,
                rtx_payload_type: None,
            },
            GatewayCodec {
                name: encoder.codec_name(),
                codec_type: PayloadType::Video,
                priority: 1000,
                payload_type: video_payload_type,
                rtx_payload_type: Some(rtx_payload_type),
            },
        ],
        data,
        sdp: local_sdp,
    }
}

/// Whether the Ready frame offers the encryption mode this client requests.
pub open spec fn offers_required_mode(modes: Seq<String>) -> bool {
    exists|i: int| 0 <= i < modes.len() && (#[trigger] modes[i])@ == "aead_aes256_gcm"@
}

/// Checks that `aead_aes256_gcm` is among the offered encryption modes.
pub fn supports_encryption(modes: &Vec<String>) -> (r: bool)
    ensures
        r == offers_required_mode(modes@),
{
    let want = owned("aead_aes256_gcm");
    let mut i: usize = 0;
    while i < modes.len()
        invariant
            i <= modes.len(),
            want@ == "aead_aes256_gcm"@,
            forall|k: int| 0 <= k < i ==> (#[trigger] modes@[k])@ != "aead_aes256_gcm"@,
        decreases modes.len() - i,
    {
        if modes[i] == want {
            return true;
        }
        i = i + 1;
    }
    false
}

} // verus!
