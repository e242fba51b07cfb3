use tuxphones::codec::{decode_frame, encode_frame, format_nonce, heartbeat_payload, parse_nonce, read_ack};
use tuxphones::frames::{
    identify, select_protocol, speaking_message, stream_information, supports_encryption,
    GatewayResolution, OutgoingWebsocketMessage, PayloadType, MAX_BITRATE,
};
use tuxphones::control::StreamResolutionInformation;
use tuxphones::media::{H264Settings, StreamSSRCs, VideoEncoderType};

#[test]
fn encode_writes_numeric_op() {
    let t = encode_frame(3, &heartbeat_payload(1234));
    assert_eq!(t, "{\"op\":3,\"d\":{\"d\":1234}}");
    assert!(!t.contains("\"op\":\""));
    assert_eq!(encode_frame(12, "{}"), "{\"op\":12,\"d\":{}}");
}

#[test]
fn frame_round_trip_numeric_and_quoted() {
    for op in [0u8, 1, 3, 5, 12, 255] {
        let d = "{\"a\":[1,2],\"b\":\"x\"}";
        let t = encode_frame(op, d);
        assert_eq!(decode_frame(&t), Some((op, d.to_string())));
        let quoted = format!("{{\"op\":\"{}\",\"d\":{}}}", op, d);
        assert_eq!(decode_frame(&quoted), Some((op, d.to_string())));
    }
}

#[test]
fn decode_accepts_string_op() {
    let t = "{\"op\":\"8\",\"d\":{\"heartbeat_interval\":1000,\"v\":7}}";
    assert_eq!(
        decode_frame(t),
        Some((8, "{\"heartbeat_interval\":1000,\"v\":7}".to_string()))
    );
}

#[test]
fn decode_rejects_malformed_frames() {
    assert_eq!(decode_frame(""), None);
    assert_eq!(decode_frame("{\"op\":,\"d\":1}"), None);
    assert_eq!(decode_frame("{\"op\":256,\"d\":1}"), None);
    assert_eq!(decode_frame("{\"op\":\"3,\"d\":1}"), None);
    assert_eq!(decode_frame("{\"op\":3,\"x\":1}"), None);
    assert_eq!(decode_frame("{\"op\":3,\"d\":1"), None);
    assert_eq!(decode_frame("{\"d\":1,\"op\":3"), None);
    assert_eq!(decode_frame("{\"d\":1,\"op\":}"), None);
    assert_eq!(decode_frame("{\"d\":1,\"op\":\"3}"), None);
    assert_eq!(decode_frame("{\"d\":1,\"op\":300}"), None);
}

#[test]
fn decode_accepts_opcode_last() {
    assert_eq!(decode_frame("{\"d\":1,\"op\":3}"), Some((3, "1".to_string())));
    assert_eq!(
        decode_frame("{\"d\":{\"heartbeat_interval\":1000,\"v\":7},\"op\":8}"),
        Some((8, "{\"heartbeat_interval\":1000,\"v\":7}".to_string()))
    );
    assert_eq!(
        decode_frame("{\"d\":{\"d\":\"11\"},\"op\":\"6\"}"),
        Some((6, "{\"d\":\"11\"}".to_string()))
    );
}

#[test]
fn nonce_round_trip() {
    for n in [0u64, 10, 17, 1234567890123, u64::MAX] {
        let s = format_nonce(n);
        assert_eq!(s, n.to_string());
        assert_eq!(parse_nonce(&s), n);
        assert_eq!(parse_nonce(&format!("\"{}\"", s)), n);
    }
}

#[test]
fn nonce_parse_failures_give_zero() {
    assert_eq!(parse_nonce("\"11\""), 11);
    assert_eq!(parse_nonce("\"+11\""), 11);
    assert_eq!(parse_nonce("\"abc\""), 0);
    assert_eq!(parse_nonce("-1"), 0);
    assert_eq!(parse_nonce("1.5"), 0);
    assert_eq!(parse_nonce("18446744073709551616"), 0);
    assert_eq!(parse_nonce("null"), 0);
    assert_eq!(parse_nonce(""), 0);
}

#[test]
fn identify_announces_one_screen_stream() {
    let m = identify("g1".into(), "s1".into(), "tok".into(), "u1".into());
    assert_eq!(m.server_id, "g1");
    assert_eq!(m.session_id, "s1");
    assert_eq!(m.token, "tok");
    assert_eq!(m.user_id, "u1");
    assert!(m.video);
    assert_eq!(m.streams.len(), 1);
    assert_eq!(m.streams[0].stream_type, "screen");
    assert_eq!(m.streams[0].rid, "100");
    assert_eq!(m.streams[0].quality, 100);
    assert_eq!(m.streams[0].active, None);
    assert_eq!(OutgoingWebsocketMessage::OpCode0(m).op(), 0);
}

#[test]
fn stream_information_carries_limits() {
    let ssrcs = StreamSSRCs { audio: 111, video: 112, rtx: 0 };
    let res = GatewayResolution::from_socket_info(StreamResolutionInformation {
        width: 1920,
        height: 1080,
        is_fixed: true,
    });
    assert_eq!(res.resolution_type, "fixed");
    let m = stream_information(ssrcs, res.clone(), 30, false);
    assert_eq!((m.audio_ssrc, m.video_ssrc, m.rtx_ssrc), (111, 112, 0));
    let s = &m.streams[0];
    assert_eq!(s.stream_type, "video");
    assert_eq!(s.rid, "100");
    assert_eq!(s.active, Some(false));
    assert_eq!(s.ssrc, Some(112));
    assert_eq!(s.max_bitrate, Some(MAX_BITRATE));
    assert_eq!(s.max_framerate, Some(30));
    assert_eq!(s.max_resolution, Some(res));
}

#[test]
fn source_resolution_follows_source() {
    let res = GatewayResolution::from_socket_info(StreamResolutionInformation {
        width: 1280,
        height: 720,
        is_fixed: false,
    });
    assert_eq!(res.resolution_type, "source");
    assert_eq!((res.width, res.height), (1280, 720));
}

#[test]
fn select_protocol_offers_opus_and_video() {
    let m = select_protocol(
        "r1".into(),
        VideoEncoderType::H264(H264Settings { nvidia_encoder: false }),
        101,
        102,
        "sdp".into(),
    );
    assert_eq!(m.protocol, "webrtc");
    assert_eq!(m.rtc_connection_id, "r1");
    assert_eq!(m.codecs[0].name, "opus");
    assert_eq!(m.codecs[0].codec_type, PayloadType::Audio);
    assert_eq!(m.codecs[0].payload_type, 111);
    assert_eq!(m.codecs[1].name, "H264");
    assert_eq!(m.codecs[1].payload_type, 101);
    assert_eq!(m.codecs[1].rtx_payload_type, Some(102));
    assert_eq!(m.data, "sdp");
    assert_eq!(m.sdp, "sdp");
}

#[test]
fn speaking_message_values() {
    let m = speaking_message();
    assert!(m.speaking);
    assert_eq!(m.delay, 5);
    assert_eq!(m.ssrc, 0);
}

#[test]
fn encryption_mode_check() {
    assert!(supports_encryption(&vec!["xsalsa20_poly1305".to_string(), "aead_aes256_gcm".to_string()]));
    assert!(!supports_encryption(&vec!["xsalsa20_poly1305".to_string()]));
    assert!(!supports_encryption(&vec![]));
}

#[test]
fn heartbeat_payload_and_ack() {
    assert_eq!(heartbeat_payload(10), "{\"d\":10}");
    for n in [0u64, 10, 17, u64::MAX] {
        assert_eq!(read_ack(&heartbeat_payload(n)), n);
        assert_eq!(read_ack(&format!("{{\"d\":\"{}\"}}", n)), n);
    }
    let (op, d) = decode_frame("{\"op\":6,\"d\":{\"d\":\"11\"}}").unwrap();
    assert_eq!(op, 6);
    assert_eq!(read_ack(&d), 11);
    assert_eq!(read_ack("{\"d\": 10}"), 10);
    assert_eq!(read_ack(" {\n \"d\" : \"11\" \r\n} "), 11);
    assert_eq!(read_ack("{\"d\":10,\"x\":1}"), 0);
    assert_eq!(read_ack("10"), 0);
    assert_eq!(read_ack("{\"d\":null}"), 0);
    assert_eq!(read_ack("{\"x\":10}"), 0);
    assert_eq!(read_ack(""), 0);
}
