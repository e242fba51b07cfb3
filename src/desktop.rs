//! What the daemon reads from the desktop: window sizes, thumbnails, and the
//! PulseAudio applications and sinks.
use vstd::prelude::*;
use crate::control::{Application, StreamPreview};
use crate::sdp::{ends_with, has_suffix, owned};
use crate::text::{chars_of, push_char, push_str};

verus! {

/// A window's size.
#[derive(Clone, Copy, Debug, PartialEq, Eq)]
pub struct Size {
    pub width: u16,
    pub height: u16,
}

/// `a / b` rounded to the nearest integer, halves away from zero.
pub open spec fn round_div(a: nat, b: nat) -> nat {
    ((2 * a + b) / (2 * b)) as nat
}

/// The largest size with the source's aspect ratio that fits the box, each
/// side rounded to the nearest integer. A source side of zero stays zero and
/// the other side fills the box; a source of no size gives no size.
pub open spec fn aspect_fit_spec(src_width: u32, src_height: u32, max_width: u32, max_height: u32) -> (u32, u32) {
    if src_width == 0 && src_height == 0 {
        (0, 0)
    } else if src_width == 0 {
        (0, max_height)
    } else if src_height == 0 {
        (max_width, 0)
    } else if max_width as nat * src_height as nat <= max_height as nat * src_width as nat {
        (max_width, round_div(src_height as nat * max_width as nat, src_width as nat) as u32)
    } else {
        (round_div(src_width as nat * max_height as nat, src_height as nat) as u32, max_height)
    }
}

proof fn lemma_round_div_le(a: nat, b: nat, m: nat)
    requires
        b > 0,
        a <= m * b,
    ensures
        round_div(a, b) <= m,
{
    assert((2 * a + b) / (2 * b) <= m) by (nonlinear_arith)
        requires
            b > 0,
            a <= m * b;
}

/// Scales a source size to fit a box, keeping its aspect ratio.
pub fn calculate_aspect_ratio_fit(src_width: u32, src_height: u32, max_width: u32, max_height: u32) -> (r: (u32, u32))
    ensures
        r == aspect_fit_spec(src_width, src_height, max_width, max_height),
        r.0 <= max_width,
        r.1 <= max_height,
{
    if src_width == 0 && src_height == 0 {
        return (0, 0);
    } else if src_width == 0 {
        return (0, max_height);
    } else if src_height == 0 {
        return (max_width, 0);
    }
    let sw = src_width as u128;
    let sh = src_height as u128;
    let mw = max_width as u128;
    let mh = max_height as u128;
    assert(mw * sh <= 0xffff_ffff_ffff_ffff_ffff_ffff) by (nonlinear_arith)
        requires mw <= 0xffff_ffff, sh <= 0xffff_ffff;
    assert(mh * sw <= 0xffff_ffff_ffff_ffff_ffff_ffff) by (nonlinear_arith)
        requires mh <= 0xffff_ffff, sw <= 0xffff_ffff;
    if mw * sh <= mh * sw {
        let a = sh * mw;
        proof {
            lemma_round_div_le(a as nat, sw as nat, mh as nat);
        }
        let h = (2 * a + sw) / (2 * sw);
        (max_width, h as u32)
    } else {
        let a = sw * mh;
        proof {
            assert(a <= mw * sh) by (nonlinear_arith)
                requires a == sw * mh, mw * sh > mh * sw;
            lemma_round_div_le(a as nat, sh as nat, mw as nat);
        }
        let w = (2 * a + sh) / (2 * sh);
        (w as u32, max_height)
    }
}

/// The standard padded base64 text of some bytes.
pub uninterp spec fn base64_of(b: Seq<u8>) -> Seq<char>;

/// Relies on `base64::encode`: the standard alphabet, with padding, so four
/// characters for each started group of three bytes. It panics when that
/// length overflows `usize`.
#[verifier::external_body]
fn encode_base64(b: &Vec<u8>) -> (r: String)
    requires
        b@.len() <= usize::MAX / 4 * 3,
    ensures
        r@ == base64_of(b@),
        r@.len() == 4 * ((b@.len() + 2) / 3),
{
    base64::encode(b)
}

impl StreamPreview {
    /// The preview message for a JPEG thumbnail.
    pub fn from_jpeg(data: &Vec<u8>) -> (r: StreamPreview)
        requires
            data@.len() <= usize::MAX / 4 * 3,
        ensures
            r.jpg@ == base64_of(data@),
            r.jpg@.len() == 4 * ((data@.len() + 2) / 3),
    {
        StreamPreview { jpg: encode_base64(data) }
    }
}

/// A PulseAudio sink.
#[derive(Clone, Debug, PartialEq, Eq)]
pub struct BasicSinkInfo {
    pub name: String,
    pub index: u32,
    /// The module that owns the sink, if any.
    pub module: Option<u32>,
}

/// An application that plays audio through PulseAudio.
#[derive(Clone, Debug, PartialEq, Eq)]
pub struct AudioApplication {
    pub name: String,
    pub pid: u32,
    /// Index of its sink input.
    pub index: u32,
    /// The sink it plays to.
    pub sink_index: u32,
}

/// PulseAudio could not be reached.
#[derive(Clone, Copy, Debug, PartialEq, Eq)]
pub enum PulseInitializationError {
    NoAlloc,
    LoopStartErr(i32),
    ContextConnectErr(i32),
    ContextStateErr,
}

/// The capture sinks could not be set up.
#[derive(Clone, Copy, Debug, PartialEq, Eq)]
pub enum PulseCaptureSetupError {
    NoPassthrough,
    NoDefaultSink,
}

/// An application's audio could not be captured.
#[derive(Clone, Copy, Debug, PartialEq, Eq)]
pub enum PulseCaptureError {
    NotSetup,
    NoAppWithPid,
}

impl PulseCaptureSetupError {
    /// A description for the log.
    pub fn message(&self) -> (r: String)
        ensures
            r@ == match self {
                PulseCaptureSetupError::NoPassthrough => "No passthrough sink found"@,
                PulseCaptureSetupError::NoDefaultSink => "No default sink found"@,
            },
    {
        match self {
            PulseCaptureSetupError::NoPassthrough => owned("No passthrough sink found"),
            PulseCaptureSetupError::NoDefaultSink => owned("No default sink found"),
        }
    }
}

impl PulseCaptureError {
    /// A description for the log.
    pub fn message(&self) -> (r: String)
        ensures
            r@ == match self {
                PulseCaptureError::NotSetup => "Capture not setup"@,
                PulseCaptureError::NoAppWithPid => "No app with given PID found"@,
            },
    {
        match self {
            PulseCaptureError::NotSetup => owned("Capture not setup"),
            PulseCaptureError::NoAppWithPid => owned("No app with given PID found"),
        }
    }
}

/// Which of the sinks the capture needs exist already.
#[derive(Clone, Copy, Debug, PartialEq, Eq)]
pub struct SinkSurvey {
    pub capture_found: bool,
    pub combined_found: bool,
    pub passthrough_found: bool,
}

pub open spec fn has_sink(sinks: Seq<BasicSinkInfo>, name: Seq<char>) -> bool {
    exists|i: int| 0 <= i < sinks.len() && (#[trigger] sinks[i]).name@ == name
}

/// Looks for the capture sink, the combined sink and the passthrough sink.
/// A sink named like the capture or combined sink never counts as the
/// passthrough.
pub fn survey_sinks(sinks: &Vec<BasicSinkInfo>, passthrough: &str) -> (r: SinkSurvey)
    ensures
        r.capture_found == has_sink(sinks@, "tuxphones"@),
        r.combined_found == has_sink(sinks@, "tuxphones-combined"@),
        r.passthrough_found == (exists|i: int| 0 <= i < sinks.len() && (#[trigger] sinks@[i]).name@ == passthrough@
            && sinks@[i].name@ != "tuxphones"@ && sinks@[i].name@ != "tuxphones-combined"@),
{
    let capture = owned("tuxphones");
    let combined = owned("tuxphones-combined");
    let pass = owned(passthrough);
    proof {
        reveal_strlit("tuxphones");
        reveal_strlit("tuxphones-combined");
        assert("tuxphones"@.len() != "tuxphones-combined"@.len());
    }
    let mut r = SinkSurvey { capture_found: false, combined_found: false, passthrough_found: false };
    let mut i: usize = 0;
    while i < sinks.len()
        invariant
            i <= sinks.len(),
            capture@ == "tuxphones"@,
            combined@ == "tuxphones-combined"@,
            "tuxphones"@ != "tuxphones-combined"@,
            pass@ == passthrough@,
            r.capture_found == (exists|k: int| 0 <= k < i && (#[trigger] sinks@[k]).name@ == "tuxphones"@),
            r.combined_found == (exists|k: int| 0 <= k < i && (#[trigger] sinks@[k]).name@ == "tuxphones-combined"@),
            r.passthrough_found == (exists|k: int| 0 <= k < i && (#[trigger] sinks@[k]).name@ == passthrough@
                && sinks@[k].name@ != "tuxphones"@ && sinks@[k].name@ != "tuxphones-combined"@),
        decreases sinks.len() - i,
    {
        let name = &sinks[i].name;
        if *name == capture {
            r.capture_found = true;
            assert(sinks@[i as int].name@ == "tuxphones"@);
        } else if *name == combined {
            r.combined_found = true;
            assert(sinks@[i as int].name@ == "tuxphones-combined"@);
        } else if *name == pass {
            r.passthrough_found = true;
            assert(sinks@[i as int].name@ == passthrough@);
        }
        i = i + 1;
    }
    r
}

/// Arguments that load the combined sink over the capture sink and `passthrough`.
pub fn combined_sink_arguments(passthrough: &str) -> (r: String)
    ensures
        r@ == "sink_name=tuxphones-combined sink_properties=device.description=tuxphones-combined adjust_time=0 slaves=tuxphones,"@
            + passthrough@,
{
    let mut r = owned("sink_name=tuxphones-combined sink_properties=device.description=tuxphones-combined adjust_time=0 slaves=tuxphones,");
    push_str(&mut r, passthrough);
    r
}

/// Turns BGRA pixels into RGBA ones, in place; a trailing partial pixel stays.
pub fn bgra_to_rgba(data: &mut Vec<u8>)
    ensures
        final(data)@.len() == old(data)@.len(),
        forall|i: int| 0 <= i < old(data)@.len() / 4 * 4 ==> #[trigger] final(data)@[i] == if i % 4 == 0 {
            old(data)@[i + 2]
        } else if i % 4 == 2 {
            old(data)@[i - 2]
        } else {
            old(data)@[i]
        },
        forall|i: int| old(data)@.len() / 4 * 4 <= i < old(data)@.len() ==> #[trigger] final(data)@[i] == old(data)@[i],
{
    let ghost orig = data@;
    let n = data.len() / 4;
    let mut p: usize = 0;
    while p < n
        invariant
            n == orig.len() / 4,
            p <= n,
            data@.len() == orig.len(),
            forall|i: int| 0 <= i < p * 4 ==> #[trigger] data@[i] == if i % 4 == 0 {
                orig[i + 2]
            } else if i % 4 == 2 {
                orig[i - 2]
            } else {
                orig[i]
            },
            forall|i: int| p * 4 <= i < orig.len() ==> #[trigger] data@[i] == orig[i],
        decreases n - p,
    {
        assert(4 * n <= orig.len()) by (nonlinear_arith)
            requires
                n == orig.len() / 4;
        assert(4 * p + 4 <= 4 * n) by (nonlinear_arith)
            requires
                p < n;
        let len = data.len();
        assert(4 * p + 3 < len);
        let b = 4 * p;
        let x = data[b];
        let z = data[b + 2];
        data.set(b, z);
        data.set(b + 2, x);
        p = p + 1;
    }
}

/// An application found for a window, as plain values: name, pid, window.
pub open spec fn found_view(a: Application) -> (Seq<char>, u32, u32) {
    (a.name@, a.pid, a.xid)
}

/// Index of the first application from `lo` on whose process is `pid`.
pub open spec fn app_with_pid(apps: Seq<AudioApplication>, pid: u32, lo: int) -> Option<int>
    decreases apps.len() - lo,
{
    if lo >= apps.len() {
        None
    } else if apps[lo].pid == pid {
        Some(lo)
    } else {
        app_with_pid(apps, pid, lo + 1)
    }
}

/// Pairs windows with audio applications by process id, window by window;
/// an application pairs with one window at most. Gives the pairs found and
/// the applications left.
pub open spec fn pair_by_pid(windows: Seq<(u32, u32)>, apps: Seq<AudioApplication>) -> (Seq<(Seq<char>, u32, u32)>, Seq<AudioApplication>)
    decreases windows.len(),
{
    if windows.len() == 0 {
        (Seq::empty(), apps)
    } else {
        let (found, rest) = pair_by_pid(windows.drop_last(), apps);
        let (xid, pid) = windows.last();
        match app_with_pid(rest, pid, 0) {
            Some(j) => (found.push((rest[j].name@, pid, xid)), rest.remove(j)),
            None => (found, rest),
        }
    }
}

/// The window of the first pair from `lo` on whose process is `pid`.
pub open spec fn window_of(windows: Seq<(u32, u32)>, pid: u32, lo: int) -> Option<u32>
    decreases windows.len() - lo,
{
    if lo >= windows.len() {
        None
    } else if windows[lo].1 == pid {
        Some(windows[lo].0)
    } else {
        window_of(windows, pid, lo + 1)
    }
}

/// The window found for an application by name: the first process from `lo`
/// on whose command ends with `/<name>` and that owns one of the windows.
pub open spec fn window_by_command(procs: Seq<(u32, String)>, windows: Seq<(u32, u32)>, name: Seq<char>, lo: int) -> Option<u32>
    decreases procs.len() - lo,
{
    if lo >= procs.len() {
        None
    } else if ends_with(procs[lo].1@, seq!['/'] + name) && window_of(windows, procs[lo].0, 0) is Some {
        window_of(windows, procs[lo].0, 0)
    } else {
        window_by_command(procs, windows, name, lo + 1)
    }
}

/// Pairs the applications left over by name, through the processes' commands.
pub open spec fn pair_by_command(apps: Seq<AudioApplication>, procs: Seq<(u32, String)>, windows: Seq<(u32, u32)>) -> Seq<(Seq<char>, u32, u32)>
    decreases apps.len(),
{
    if apps.len() == 0 {
        Seq::empty()
    } else {
        let a = apps.last();
        let earlier = pair_by_command(apps.drop_last(), procs, windows);
        match window_by_command(procs, windows, a.name@, 0) {
            Some(x) => earlier.push((a.name@, a.pid, x)),
            None => earlier,
        }
    }
}

/// The applications whose sound can be captured for the given windows.
pub open spec fn applications_spec(windows: Seq<(u32, u32)>, apps: Seq<AudioApplication>, procs: Seq<(u32, String)>) -> Seq<(Seq<char>, u32, u32)> {
    let (found, rest) = pair_by_pid(windows, apps);
    found + pair_by_command(rest, procs, windows)
}

fn find_app(apps: &Vec<AudioApplication>, pid: u32) -> (r: Option<usize>)
    ensures
        r matches Some(j) ==> app_with_pid(apps@, pid, 0) == Some(j as int) && j < apps.len(),
        r is None ==> app_with_pid(apps@, pid, 0) is None,
{
    let mut i: usize = 0;
    while i < apps.len()
        invariant
            i <= apps.len(),
            app_with_pid(apps@, pid, 0) == app_with_pid(apps@, pid, i as int),
        decreases apps.len() - i,
    {
        if apps[i].pid == pid {
            return Some(i);
        }
        i = i + 1;
    }
    None
}

fn find_window(windows: &Vec<(u32, u32)>, pid: u32) -> (r: Option<u32>)
    ensures
        r == window_of(windows@, pid, 0),
{
    let mut i: usize = 0;
    while i < windows.len()
        invariant
            i <= windows.len(),
            window_of(windows@, pid, 0) == window_of(windows@, pid, i as int),
        decreases windows.len() - i,
    {
        if windows[i].1 == pid {
            return Some(windows[i].0);
        }
        i = i + 1;
    }
    None
}

fn find_window_by_command(procs: &Vec<(u32, String)>, windows: &Vec<(u32, u32)>, name: &String) -> (r: Option<u32>)
    ensures
        r == window_by_command(procs@, windows@, name@, 0),
{
    let mut suffix = String::new();
    push_char(&mut suffix, '/');
    push_str(&mut suffix, name.as_str());
    let suf = chars_of(suffix.as_str());
    let mut i: usize = 0;
    while i < procs.len()
        invariant
            i <= procs.len(),
            suf@ == seq!['/'] + name@,
            window_by_command(procs@, windows@, name@, 0) == window_by_command(procs@, windows@, name@, i as int),
        decreases procs.len() - i,
    {
        let cmd = chars_of(procs[i].1.as_str());
        if has_suffix(&cmd, &suf) {
            let w = find_window(windows, procs[i].0);
            if w.is_some() {
                return w;
            }
        }
        i = i + 1;
    }
    None
}

/// Finds the applications whose sound can be captured for the given
/// windows. `windows` pairs each window with its process; `apps` are the
/// PulseAudio applications; `procs` pairs each running process with the
/// first word of its command line. An application pairs first by process id,
/// window by window; those left pair by name, through a process whose command
/// ends with `/<name>` and that owns one of the windows.
pub fn match_applications(windows: &Vec<(u32, u32)>, apps: Vec<AudioApplication>, procs: &Vec<(u32, String)>) -> (r: Vec<Application>)
    ensures
        r@.map_values(|a: Application| found_view(a)) == applications_spec(windows@, apps@, procs@),
{
    let ghost apps0 = apps@;
    let mut rest = apps;
    let mut found: Vec<Application> = Vec::new();
    let mut i: usize = 0;
    while i < windows.len()
        invariant
            i <= windows.len(),
            (found@.map_values(|a: Application| found_view(a)), rest@) == pair_by_pid(windows@.take(i as int), apps0),
        decreases windows.len() - i,
    {
        let (xid, pid) = windows[i];
        assert(windows@.take(i + 1).drop_last() =~= windows@.take(i as int));
        let ghost before = found@;
        match find_app(&rest, pid) {
            Some(j) => {
                let app = rest.remove(j);
                found.push(Application { name: app.name, pid, xid });
                assert(found@.map_values(|a: Application| found_view(a)) =~= before.map_values(|a: Application| found_view(a)).push((app.name@, pid, xid)));
            },
            None => {},
        }
        i = i + 1;
    }
    assert(windows@.take(windows.len() as int) =~= windows@);
    let ghost found1 = found@.map_values(|a: Application| found_view(a));
    let ghost rest0 = rest@;
    let mut k: usize = 0;
    while k < rest.len()
        invariant
            k <= rest.len(),
            rest@ == rest0,
            found@.map_values(|a: Application| found_view(a)) == found1 + pair_by_command(rest0.take(k as int), procs@, windows@),
        decreases rest.len() - k,
    {
        assert(rest0.take(k + 1).drop_last() =~= rest0.take(k as int));
        let ghost before = found@;
        let app = &rest[k];
        match find_window_by_command(procs, windows, &app.name) {
            Some(x) => {
                found.push(Application { name: app.name.clone(), pid: app.pid, xid: x });
                assert(found@.map_values(|a: Application| found_view(a)) =~= before.map_values(|a: Application| found_view(a)).push((app.name@, app.pid, x)));
            },
            None => {},
        }
        k = k + 1;
        assert(found@.map_values(|a: Application| found_view(a)) =~= found1 + pair_by_command(rest0.take(k as int), procs@, windows@));
    }
    assert(rest0.take(rest.len() as int) =~= rest0);
    found
}

} // verus!
