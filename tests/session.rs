use tuxphones::control::{ice_servers, IceData, SocketListenerCreationError, IceServer, SocketListenerCommand, StreamPreview, StreamResolutionInformation};
use tuxphones::desktop::{calculate_aspect_ratio_fit, PulseCaptureError, PulseCaptureSetupError};
use tuxphones::session::{gateway_url, upgrade_succeeded, ControlAction, Controller};

fn start() -> SocketListenerCommand {
    SocketListenerCommand::StartStream {
        pid: 42,
        xid: 7,
        resolution: StreamResolutionInformation { width: 1920, height: 1080, is_fixed: true },
        framerate: 30,
        server_id: "g1".into(),
        user_id: "u1".into(),
        token: "tok".into(),
        session_id: "s1".into(),
        rtc_connection_id: "r1".into(),
        endpoint: "sfu.test".into(),
        ip: "203.0.113.7".into(),
        ice: IceData { urls: vec!["stun:stun.test:3478".into()], username: "".into(), credential: "".into() },
    }
}

#[test]
fn gateway_url_for_endpoint() {
    assert_eq!(gateway_url("sfu.test"), "wss://sfu.test/?v=7");
    assert!(upgrade_succeeded(101));
    assert!(!upgrade_succeeded(200));
}

#[test]
fn one_session_at_a_time() {
    let mut c = Controller::new();
    let a = c.handle(start());
    match &a[..] {
        [ControlAction::StartSession(st)] => {
            assert_eq!(st.gateway_url, "wss://sfu.test/?v=7");
            assert_eq!(st.params.server_id, "g1");
            assert_eq!(st.params.framerate, 30);
            assert_eq!(st.pid, 42);
            assert_eq!(st.xid, 7);
            assert_eq!(st.ice_servers, vec![IceServer::Stun("stun:stun.test:3478".into())]);
        }
        other => panic!("{:?}", other),
    }
    assert_eq!(c.handle(start()), vec![ControlAction::RejectStart]);
    assert_eq!(c.handle(SocketListenerCommand::StopStream), vec![ControlAction::StopSession]);
    assert!(matches!(&c.handle(start())[..], [ControlAction::StartSession(_)]));
}

#[test]
fn concurrent_stops_publish_one_stream_stop() {
    let mut c = Controller::new();
    c.handle(start());
    let a = c.handle(SocketListenerCommand::StopStreamInternal);
    assert_eq!(a, vec![ControlAction::StopSession, ControlAction::PublishStreamStop]);
    assert!(c.handle(SocketListenerCommand::StopStream).is_empty());
}

#[test]
fn local_stop_first_still_publishes_one_stream_stop() {
    let mut c = Controller::new();
    c.handle(start());
    assert_eq!(c.handle(SocketListenerCommand::StopStream), vec![ControlAction::StopSession]);
    assert_eq!(
        c.handle(SocketListenerCommand::StopStreamInternal),
        vec![ControlAction::PublishStreamStop]
    );
}

#[test]
fn every_internal_stop_publishes() {
    let mut c = Controller::new();
    assert_eq!(
        c.handle(SocketListenerCommand::StopStreamInternal),
        vec![ControlAction::PublishStreamStop]
    );
    assert!(c.handle(SocketListenerCommand::StopStream).is_empty());
}

#[test]
fn failed_start_ends_the_session_quietly() {
    let mut c = Controller::new();
    c.handle(start());
    c.start_failed();
    assert!(!c.session_active);
    assert!(c.handle(SocketListenerCommand::StopStream).is_empty());
    assert!(matches!(&c.handle(start())[..], [ControlAction::StartSession(_)]));
}

#[test]
fn get_info_is_passed_on() {
    let mut c = Controller::new();
    assert_eq!(
        c.handle(SocketListenerCommand::GetInfo { xids: vec![1, 2] }),
        vec![ControlAction::ResolveApplications(vec![1, 2])]
    );
    assert!(!c.session_active);
}

#[test]
fn previews_every_ten_minutes() {
    let mut c = Controller::new();
    assert!(!c.preview_due(0));
    c.handle(start());
    assert!(c.preview_due(5));
    c.preview_taken(5);
    assert!(!c.preview_due(600_005));
    assert!(c.preview_due(600_006));
}

#[test]
fn ice_urls_by_scheme() {
    let ice = IceData {
        urls: vec!["stun:a:3478".into(), "turn:b:3478".into(), "turns:c:5349".into()],
        username: "user".into(),
        credential: "pass".into(),
    };
    assert_eq!(
        ice_servers(&ice),
        vec![
            IceServer::Stun("stun:a:3478".into()),
            IceServer::Turn { url: "turn:b:3478".into(), username: "user".into(), credential: "pass".into() },
            IceServer::Unsupported("turns:c:5349".into()),
        ]
    );
}

#[test]
fn aspect_ratio_fit_values() {
    assert_eq!(calculate_aspect_ratio_fit(1920, 1080, 512, 512), (512, 288));
    assert_eq!(calculate_aspect_ratio_fit(1080, 1920, 512, 512), (288, 512));
    assert_eq!(calculate_aspect_ratio_fit(100, 100, 512, 512), (512, 512));
    assert_eq!(calculate_aspect_ratio_fit(1000, 3, 512, 512), (512, 2));
    assert_eq!(calculate_aspect_ratio_fit(0, 100, 512, 256), (0, 256));
    assert_eq!(calculate_aspect_ratio_fit(100, 0, 512, 256), (512, 0));
    assert_eq!(calculate_aspect_ratio_fit(0, 0, 512, 256), (0, 0));
}

#[test]
fn preview_is_base64() {
    assert_eq!(StreamPreview::from_jpeg(&b"hello".to_vec()).jpg, "aGVsbG8=");
    assert_eq!(StreamPreview::from_jpeg(&vec![]).jpg, "");
}

#[test]
fn pulse_error_messages() {
    assert_eq!(PulseCaptureSetupError::NoPassthrough.message(), "No passthrough sink found");
    assert_eq!(PulseCaptureSetupError::NoDefaultSink.message(), "No default sink found");
    assert_eq!(PulseCaptureError::NotSetup.message(), "Capture not setup");
    assert_eq!(PulseCaptureError::NoAppWithPid.message(), "No app with given PID found");
}

#[test]
fn bind_error_message() {
    assert_eq!(
        SocketListenerCreationError::UnableToBindPort(9000).message(),
        "Unable to bind to localhost on port 9000"
    );
}
