use tuxphones::control::Application;
use tuxphones::desktop::{
    bgra_to_rgba, combined_sink_arguments, match_applications, survey_sinks, AudioApplication,
    BasicSinkInfo, SinkSurvey,
};

fn app(name: &str, pid: u32) -> AudioApplication {
    AudioApplication { name: name.into(), pid, index: pid + 100, sink_index: 0 }
}

fn found(name: &str, pid: u32, xid: u32) -> Application {
    Application { name: name.into(), pid, xid }
}

#[test]
fn applications_pair_by_pid_first() {
    let windows = vec![(7u32, 42u32), (8, 43), (9, 99)];
    let apps = vec![app("firefox", 43), app("mpv", 42), app("mpv", 42)];
    let r = match_applications(&windows, apps, &vec![]);
    assert_eq!(r, vec![found("mpv", 42, 7), found("firefox", 43, 8)]);
}

#[test]
fn leftover_applications_pair_by_command() {
    let windows = vec![(7u32, 42u32), (9, 50)];
    let apps = vec![app("spotify", 77), app("other", 78)];
    let procs = vec![
        (60u32, "/usr/bin/spotify".to_string()),
        (50u32, "/opt/spotify/spotify".to_string()),
        (51u32, "/usr/bin/other".to_string()),
    ];
    let r = match_applications(&windows, apps, &procs);
    assert_eq!(r, vec![found("spotify", 77, 9)]);
}

#[test]
fn no_windows_no_applications() {
    assert!(match_applications(&vec![], vec![app("a", 1)], &vec![]).is_empty());
}

#[test]
fn sink_survey() {
    let sinks = vec![
        BasicSinkInfo { name: "alsa_output".into(), index: 1, module: Some(3) },
        BasicSinkInfo { name: "tuxphones".into(), index: 2, module: Some(4) },
    ];
    assert_eq!(
        survey_sinks(&sinks, "alsa_output"),
        SinkSurvey { capture_found: true, combined_found: false, passthrough_found: true }
    );
    assert_eq!(
        survey_sinks(&sinks, "tuxphones"),
        SinkSurvey { capture_found: true, combined_found: false, passthrough_found: false }
    );
    assert_eq!(
        survey_sinks(&vec![], "x"),
        SinkSurvey { capture_found: false, combined_found: false, passthrough_found: false }
    );
}

#[test]
fn combined_sink_module_arguments() {
    assert_eq!(
        combined_sink_arguments("alsa_output"),
        "sink_name=tuxphones-combined sink_properties=device.description=tuxphones-combined adjust_time=0 slaves=tuxphones,alsa_output"
    );
}

#[test]
fn pixels_swap_blue_and_red() {
    let mut d = vec![1u8, 2, 3, 4, 5, 6, 7, 8, 9, 10];
    bgra_to_rgba(&mut d);
    assert_eq!(d, vec![3, 2, 1, 4, 7, 6, 5, 8, 9, 10]);
}
