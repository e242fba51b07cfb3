use tuxphones::error::SessionError;
use tuxphones::media::{H264Settings, StreamSSRCs, VideoEncoderType};
use tuxphones::sdp::{compose, harvest_remote, read_local_offer, split_lines, LocalOfferInfo};

fn h264() -> VideoEncoderType {
    VideoEncoderType::H264(H264Settings { nvidia_encoder: false })
}

fn local_offer() -> String {
    [
        "v=0",
        "o=- 4611731400430051336 2 IN IP4 127.0.0.1",
        "s=-",
        "t=0 0",
        "a=group:BUNDLE video0 audio1",
        "m=video 9 UDP/TLS/RTP/SAVPF 96 101 102",
        "c=IN IP4 0.0.0.0",
        "a=mid:video0",
        "a=rtpmap:96 VP8/90000",
        "a=rtpmap:101 H264/90000",
        "a=rtpmap:102 rtx/90000",
        "a=fmtp:102 apt=101",
        "a=ssrc:112 msid:user stream",
        "a=ssrc:113 msid:user stream",
        "m=audio 9 UDP/TLS/RTP/SAVPF 111",
        "a=mid:audio1",
        "a=rtpmap:111 OPUS/48000/2",
        "a=ssrc:111 cname:user",
        "",
    ]
    .join("\r\n")
}

fn remote_sdp() -> String {
    [
        "m=audio 50000 ICE/SDP",
        "a=fingerprint:sha-256 AA:BB:CC",
        "c=IN IP4 198.51.100.5",
        "a=rtcp:50000",
        "a=ice-ufrag:uf1",
        "a=ice-pwd:pw1",
        "a=candidate:1 1 UDP 4261412862 198.51.100.5 50000 typ host",
        "",
    ]
    .join("\n")
}

#[test]
fn split_lines_removes_carriage_returns() {
    let cs: Vec<char> = "a\r\nb\n\nc".chars().collect();
    let ls = split_lines(&cs);
    let got: Vec<String> = ls.iter().map(|l| l.iter().collect()).collect();
    assert_eq!(got, vec!["a", "b", "", "c"]);
    let empty = split_lines(&vec![]);
    assert_eq!(empty.len(), 1);
    assert!(empty[0].is_empty());
}

#[test]
fn local_offer_values() {
    let info = read_local_offer(&local_offer(), h264()).unwrap();
    assert_eq!(
        info,
        LocalOfferInfo {
            video_payload_type: 101,
            rtx_payload_type: 102,
            ssrcs: StreamSSRCs { audio: 111, video: 112, rtx: 0 },
        }
    );
    let vp8 = read_local_offer(&local_offer(), VideoEncoderType::VP8).unwrap();
    assert_eq!(vp8.video_payload_type, 96);
}

#[test]
fn missing_rtx_fails_with_rtx() {
    let offer = local_offer().replace("a=rtpmap:102 rtx/90000\r\n", "");
    assert_eq!(
        read_local_offer(&offer, h264()),
        Err(SessionError::SdpComposition("rtx".to_string()))
    );
    assert_eq!(
        compose(&offer, &remote_sdp(), h264()),
        Err(SessionError::SdpComposition("rtx".to_string()))
    );
}

#[test]
fn local_offer_errors() {
    assert_eq!(
        read_local_offer("v=0\n", h264()),
        Err(SessionError::SdpComposition("rtx".to_string()))
    );
    let no_audio = local_offer().replace("m=audio", "m=text");
    assert_eq!(
        read_local_offer(&no_audio, h264()),
        Err(SessionError::SdpComposition("audio".to_string()))
    );
    assert_eq!(
        read_local_offer(&local_offer(), VideoEncoderType::VP9),
        Err(SessionError::SdpComposition("VP9".to_string()))
    );
    let no_ssrc = local_offer().replace("a=ssrc:111 cname:user\r\n", "");
    assert_eq!(
        read_local_offer(&no_ssrc, h264()),
        Err(SessionError::SdpComposition("ssrc".to_string()))
    );
}

#[test]
fn rtx_outside_the_video_block_does_not_count() {
    let offer = local_offer()
        .replace("a=rtpmap:102 rtx/90000\r\n", "")
        .replace("a=ssrc:111 cname:user", "a=ssrc:111 cname:user\r\na=rtpmap:102 rtx/90000");
    assert_eq!(
        read_local_offer(&offer, h264()),
        Err(SessionError::SdpComposition("rtx".to_string()))
    );
}

#[test]
fn remote_fragments() {
    let f = harvest_remote(&remote_sdp()).unwrap();
    assert_eq!(f.address, "198.51.100.5");
    assert_eq!(f.port, 50000);
    assert_eq!(f.candidate, "a=candidate:1 1 UDP 4261412862 198.51.100.5 50000 typ host");
    assert_eq!(f.fingerprint, "a=fingerprint:sha-256 AA:BB:CC");
    assert_eq!(f.ice_ufrag, "a=ice-ufrag:uf1");
    assert_eq!(f.ice_pwd, "a=ice-pwd:pw1");
}

#[test]
fn missing_connection_is_named_before_other_fragments() {
    assert_eq!(
        harvest_remote("m=audio 50000 ICE/SDP\n"),
        Err(SessionError::SdpComposition("connection".to_string()))
    );
}

#[test]
fn missing_connection_fails_with_connection() {
    let sdp = remote_sdp().replace("c=IN IP4 198.51.100.5\n", "");
    assert_eq!(
        harvest_remote(&sdp),
        Err(SessionError::SdpComposition("connection".to_string()))
    );
    assert_eq!(
        compose(&local_offer(), &sdp, h264()),
        Err(SessionError::SdpComposition("connection".to_string()))
    );
}

#[test]
fn each_missing_fragment_is_named() {
    for (line, name) in [
        ("a=candidate:1 1 UDP 4261412862 198.51.100.5 50000 typ host\n", "candidate"),
        ("a=fingerprint:sha-256 AA:BB:CC\n", "fingerprint"),
        ("a=ice-ufrag:uf1\n", "ice-ufrag"),
        ("a=ice-pwd:pw1\n", "ice-pwd"),
        ("m=audio 50000 ICE/SDP\n", "port"),
    ] {
        let sdp = remote_sdp().replace(line, "");
        assert_eq!(harvest_remote(&sdp), Err(SessionError::SdpComposition(name.to_string())));
    }
    let bad_port = remote_sdp().replace("m=audio 50000", "m=audio 70000");
    assert_eq!(harvest_remote(&bad_port), Err(SessionError::SdpComposition("port".to_string())));
}

fn expected_answer() -> String {
    let shared = |mid: &str| {
        vec![
            "c=IN IP4 198.51.100.5 127 1".to_string(),
            "a=rtcp:50000".to_string(),
            "a=ice-ufrag:uf1".to_string(),
            "a=ice-pwd:pw1".to_string(),
            "a=fingerprint:sha-256 AA:BB:CC".to_string(),
            "a=setup:passive".to_string(),
            format!("a=mid:{}", mid),
            "a=rtcp-mux".to_string(),
            "a=inactive".to_string(),
        ]
    };
    let cand = "a=candidate:1 1 UDP 4261412862 198.51.100.5 50000 typ host".to_string();
    let mut lines: Vec<String> = vec![
        "v=0",
        "o=- 1420070400000 0 IN IP4 127.0.0.1",
        "s=-",
        "t=0 0",
        "a=msid-semantic: WMS *",
        "a=group:BUNDLE 0 1",
        "m=video 50000 UDP/TLS/RTP/SAVPF 101 102",
    ]
    .into_iter()
    .map(String::from)
    .collect();
    lines.extend(shared("0"));
    lines.extend(
        [
            "a=rtcp-fb:101 ccm fir",
            "a=rtcp-fb:101 nack",
            "a=rtcp-fb:101 nack pli",
            "a=rtcp-fb:101 goog-remb",
            "a=rtcp-fb:101 transport-cc",
            "a=extmap:2 http://www.webrtc.org/experiments/rtp-hdrext/abs-send-time",
            "a=extmap:3 http://www.ietf.org/id/draft-holmer-rmcat-transport-wide-cc-extensions-01",
            "a=extmap:14 urn:ietf:params:rtp-hdrext:toffset",
            "a=extmap:13 urn:3gpp:video-orientation",
            "a=extmap:5 http://www.webrtc.org/experiments/rtp-hdrext/playout-delay",
            "a=fmtp:101 x-google-max-bitrate=2500;level-asymmetry-allowed=1;packetization-mode=1;profile-level-id=42e01f",
            "a=fmtp:102 apt=101",
            "a=rtpmap:101 H264/90000",
            "a=rtpmap:102 rtx/90000",
        ]
        .into_iter()
        .map(String::from),
    );
    lines.push(cand.clone());
    lines.push("a=end-of-candidates".to_string());
    lines.push("m=audio 50000 UDP/TLS/RTP/SAVPF 111".to_string());
    lines.extend(shared("1"));
    lines.extend(
        [
            "a=fmtp:111 minptime=10;useinbandfec=1;usedtx=1",
            "a=maxptime:60",
            "a=rtpmap:111 opus/48000/2",
            "a=rtcp-fb:111 transport-cc",
        ]
        .into_iter()
        .map(String::from),
    );
    lines.push(cand);
    let mut out = String::new();
    for l in lines {
        out.push_str(&l);
        out.push('\n');
    }
    out
}

#[test]
fn composed_answer_exact_text() {
    let a = compose(&local_offer(), &remote_sdp(), h264()).unwrap();
    assert_eq!(a.local.video_payload_type, 101);
    assert_eq!(a.sdp, expected_answer());
    assert!(!a.sdp.contains('\r'));
}

#[test]
fn composed_answer_has_required_keys_and_sections() {
    let a = compose(&local_offer(), &remote_sdp(), h264()).unwrap();
    for key in ["a=candidate:", "a=fingerprint:", "a=ice-ufrag:", "a=ice-pwd:", "a=rtcp-mux", "a=setup:"] {
        assert!(a.sdp.lines().any(|l| l.starts_with(key)), "{}", key);
    }
    let media: Vec<&str> = a.sdp.lines().filter(|l| l.starts_with("m=")).collect();
    assert_eq!(media.len(), 2);
    assert!(media[0].starts_with("m=video"));
    assert!(media[1].starts_with("m=audio"));
    let mid0 = a.sdp.find("a=mid:0").unwrap();
    let mid1 = a.sdp.find("a=mid:1").unwrap();
    let audio = a.sdp.find("m=audio").unwrap();
    assert!(mid0 < audio && audio < mid1);
}

#[test]
fn minimal_fragments_compose() {
    let sdp = "m=audio 50001 ICE/SDP\nc=IN IP4 192.0.2.1\na=candidate:1 1 UDP 1 192.0.2.1 50001 typ host\na=fingerprint:sha-256 00\na=ice-ufrag:u\na=ice-pwd:p";
    let a = compose(&local_offer(), sdp, h264()).unwrap();
    assert_eq!(a.sdp.lines().filter(|l| l.starts_with("m=")).count(), 2);
    assert!(a.sdp.contains("m=video 50001 UDP/TLS/RTP/SAVPF 101 102\n"));
    assert!(a.sdp.contains("a=rtcp:50001\n"));
}
