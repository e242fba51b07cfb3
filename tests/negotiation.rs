use tuxphones::control::StreamResolutionInformation;
use tuxphones::error::SessionError;
use tuxphones::frames::{
    IncomingWebsocketMessage, OpCode15, OpCode16, OpCode2, OpCode3_6, OpCode4, OpCode8,
    OutgoingWebsocketMessage, AudioCodec,
};
use tuxphones::media::{H264Settings, VideoEncoderType};
use tuxphones::negotiation::{Action, GatewayEvent, Negotiation, NegotiationState, SessionParams};

fn params() -> SessionParams {
    SessionParams {
        server_id: "g1".into(),
        session_id: "s1".into(),
        token: "tok".into(),
        user_id: "u1".into(),
        rtc_connection_id: "r1".into(),
        resolution: StreamResolutionInformation { width: 1920, height: 1080, is_fixed: true },
        framerate: 30,
        encoder: VideoEncoderType::H264(H264Settings { nvidia_encoder: false }),
    }
}

fn offer() -> String {
    "v=0\nm=video 9 UDP/TLS/RTP/SAVPF 101 102\na=rtpmap:101 H264/90000\na=rtpmap:102 rtx/90000\na=ssrc:112 cname:x\nm=audio 9 UDP/TLS/RTP/SAVPF 111\na=ssrc:111 cname:x\n".to_string()
}

fn remote() -> String {
    "m=audio 50000 ICE/SDP\na=fingerprint:sha-256 AA\nc=IN IP4 198.51.100.5\na=ice-ufrag:u\na=ice-pwd:p\na=candidate:1 1 UDP 1 198.51.100.5 50000 typ host\n".to_string()
}

fn ready(modes: &[&str]) -> GatewayEvent {
    GatewayEvent::Frame(IncomingWebsocketMessage::OpCode2(OpCode2 {
        ip: "198.51.100.5".into(),
        port: 50000,
        modes: modes.iter().map(|m| m.to_string()).collect(),
        ssrc: 111,
        streams: vec![],
    }))
}

fn hello() -> GatewayEvent {
    GatewayEvent::Frame(IncomingWebsocketMessage::OpCode8(OpCode8 { heartbeat_interval: 1000, v: 7 }))
}

fn description() -> GatewayEvent {
    GatewayEvent::Frame(IncomingWebsocketMessage::OpCode4(OpCode4 {
        audio_codec: AudioCodec::Opus,
        media_session_id: "m".into(),
        sdp: remote(),
        video_codec: "H264".into(),
    }))
}

fn ops(acts: &[Action]) -> Vec<u8> {
    acts.iter()
        .filter_map(|a| match a {
            Action::Send(m) => Some(m.op()),
            _ => None,
        })
        .collect()
}

#[test]
fn nominal_session_reaches_active() {
    let (mut n, first) = Negotiation::new(params());
    let mut wire = ops(&first);
    assert_eq!(n.state, NegotiationState::Auth);
    let a = n.step(hello());
    assert_eq!(a, vec![Action::StartHeartbeat { interval_ms: 1000 }]);
    assert_eq!(n.state, NegotiationState::Hello);
    let a = n.step(GatewayEvent::HeartbeatDue);
    wire.extend(ops(&a));
    let a = n.step(ready(&["aead_aes256_gcm"]));
    assert!(a.is_empty());
    assert_eq!(n.state, NegotiationState::Describe);
    let a = n.step(GatewayEvent::LocalOffer(offer()));
    wire.extend(ops(&a));
    assert_eq!(n.state, NegotiationState::Select);
    match &a[0] {
        Action::Send(OutgoingWebsocketMessage::OpCode12(m)) => {
            assert_eq!(m.streams[0].active, Some(false));
            assert_eq!(m.video_ssrc, 112);
            assert_eq!(m.audio_ssrc, 111);
        }
        other => panic!("{:?}", other),
    }
    match &a[1] {
        Action::Send(OutgoingWebsocketMessage::OpCode1(m)) => {
            assert_eq!(m.codecs[1].payload_type, 101);
            assert_eq!(m.codecs[1].rtx_payload_type, Some(102));
            assert_eq!(m.sdp, offer());
        }
        other => panic!("{:?}", other),
    }
    let a = n.step(description());
    assert_eq!(n.state, NegotiationState::Answer);
    assert_eq!(a.len(), 1);
    match &a[0] {
        Action::ApplyAnswer(to_gst) => assert!(to_gst.remote_sdp.starts_with("v=0\n")),
        other => panic!("{:?}", other),
    }
    let a = n.step(GatewayEvent::AnswerApplied);
    wire.extend(ops(&a));
    assert_eq!(n.state, NegotiationState::Active);
    assert_eq!(wire, vec![0, 3, 12, 1, 12, 5]);
    assert!(n.activated);
}

#[test]
fn offer_before_ready_waits_for_ready() {
    let (mut n, _) = Negotiation::new(params());
    n.step(hello());
    let a = n.step(GatewayEvent::LocalOffer(offer()));
    assert!(a.is_empty());
    assert_eq!(n.state, NegotiationState::Hello);
    let a = n.step(ready(&["aead_aes256_gcm"]));
    assert_eq!(ops(&a), vec![12, 1]);
    assert_eq!(n.state, NegotiationState::Select);
}

#[test]
fn unsupported_encryption_fails_session() {
    let (mut n, _) = Negotiation::new(params());
    n.step(hello());
    let a = n.step(ready(&["xsalsa20_poly1305"]));
    assert_eq!(
        a,
        vec![
            Action::StopHeartbeat,
            Action::Fail(SessionError::UnsupportedEncryption),
            Action::Teardown,
            Action::PublishStreamStop,
        ]
    );
    assert_eq!(n.state, NegotiationState::Closing);
    let a = n.step(GatewayEvent::LocalOffer(offer()));
    assert!(ops(&a).is_empty());
    assert!(!n.selected);
}

#[test]
fn remote_close_before_hello() {
    let (mut n, _) = Negotiation::new(params());
    let a = n.step(GatewayEvent::RemoteClose);
    assert_eq!(
        a,
        vec![
            Action::Fail(SessionError::GatewayTransport),
            Action::Teardown,
            Action::PublishStreamStop,
        ]
    );
    assert!(n.heartbeat.is_none());
    let a = n.step(hello());
    assert!(a.is_empty());
    assert!(n.heartbeat.is_none());
}

#[test]
fn nonce_mismatch_warns_and_keeps_state() {
    let (mut n, _) = Negotiation::new(params());
    n.step(hello());
    let mut hb = n.heartbeat.unwrap();
    hb.beat_with(0xA);
    n.heartbeat = Some(hb);
    let before = n.state;
    let a = n.step(GatewayEvent::Frame(IncomingWebsocketMessage::OpCode6(OpCode3_6 {
        d: tuxphones::codec::read_ack("{\"d\":\"11\"}"),
    })));
    assert_eq!(a, vec![Action::NonceMismatch { expected: 10, received: 11 }]);
    assert_eq!(n.state, before);
    let a = n.step(GatewayEvent::Frame(IncomingWebsocketMessage::OpCode6(OpCode3_6 { d: 10 })));
    assert!(a.is_empty());
}

#[test]
fn heartbeat_sends_the_recorded_nonce() {
    let (mut n, _) = Negotiation::new(params());
    assert!(n.step(GatewayEvent::HeartbeatDue).is_empty());
    n.step(hello());
    let a = n.step(GatewayEvent::HeartbeatDue);
    match &a[..] {
        [Action::Send(OutgoingWebsocketMessage::OpCode3(f))] => {
            assert_eq!(n.heartbeat.unwrap().last_nonce, Some(f.d));
        }
        other => panic!("{:?}", other),
    }
}

#[test]
fn missing_fragment_fails_session() {
    let (mut n, _) = Negotiation::new(params());
    n.step(hello());
    n.step(ready(&["aead_aes256_gcm"]));
    n.step(GatewayEvent::LocalOffer(offer()));
    let a = n.step(GatewayEvent::Frame(IncomingWebsocketMessage::OpCode4(OpCode4 {
        audio_codec: AudioCodec::Opus,
        media_session_id: "m".into(),
        sdp: remote().replace("c=IN IP4 198.51.100.5\n", ""),
        video_codec: "H264".into(),
    })));
    assert_eq!(a[1], Action::Fail(SessionError::SdpComposition("connection".into())));
    assert_eq!(n.state, NegotiationState::Closing);
}

#[test]
fn rejected_answer_fails_session() {
    let (mut n, _) = Negotiation::new(params());
    n.step(hello());
    n.step(ready(&["aead_aes256_gcm"]));
    n.step(GatewayEvent::LocalOffer(offer()));
    n.step(description());
    let a = n.step(GatewayEvent::AnswerRejected);
    assert_eq!(a[1], Action::Fail(SessionError::MediaEngineSetup));
}

#[test]
fn local_stop_is_idempotent() {
    let (mut n, _) = Negotiation::new(params());
    n.step(hello());
    let a = n.step(GatewayEvent::LocalStop);
    assert_eq!(a, vec![Action::StopHeartbeat, Action::Teardown]);
    assert!(n.step(GatewayEvent::LocalStop).is_empty());
    assert!(n.step(GatewayEvent::RemoteClose).is_empty());
    assert!(n.step(GatewayEvent::HeartbeatDue).is_empty());
}

#[test]
fn flags_and_versions_are_informational() {
    let (mut n, _) = Negotiation::new(params());
    n.step(hello());
    assert!(n.step(GatewayEvent::Frame(IncomingWebsocketMessage::OpCode15(OpCode15 { any: 1 }))).is_empty());
    assert_eq!(n.flags_seen, 1);
    assert!(n
        .step(GatewayEvent::Frame(IncomingWebsocketMessage::OpCode16(OpCode16 {
            voice: "1".into(),
            rtc_worker: "2".into(),
        })))
        .is_empty());
    assert_eq!(n.state, NegotiationState::Hello);
}
