//! The fixed invocations of the device bridge and mirroring binaries, the
//! verdicts drawn from their outputs, and the labels of the session banner.
//! Each command's compute part lives here; spawning stays in the runtime
//! layer.
use vstd::prelude::*;
use crate::registry::HostOs;
use crate::text::{
    views_of, spec_contains_str, spec_trim, spec_dec, contains_str, trim_str, push_lit,
    push_string, str_eq, u32_to_string,
};

verus! {

/// `adb connect <ip>`.
pub fn connect_invocation(ip: &str) -> (r: Vec<String>)
    ensures
        views_of(r@) == seq!["connect"@, ip@],
{
    let mut r: Vec<String> = Vec::new();
    assert(views_of(r@) =~= Seq::<Seq<char>>::empty());
    push_lit(&mut r, "connect");
    push_string(&mut r, ip.to_owned());
    assert(views_of(r@) =~= seq!["connect"@, ip@]);
    r
}

/// `adb pair <ip> <code>`.
pub fn pair_invocation(ip: &str, code: &str) -> (r: Vec<String>)
    ensures
        views_of(r@) == seq!["pair"@, ip@, code@],
{
    let mut r: Vec<String> = Vec::new();
    assert(views_of(r@) =~= Seq::<Seq<char>>::empty());
    push_lit(&mut r, "pair");
    push_string(&mut r, ip.to_owned());
    push_string(&mut r, code.to_owned());
    assert(views_of(r@) =~= seq!["pair"@, ip@, code@]);
    r
}

/// `adb -s <device> shell <command>`.
pub fn shell_invocation(device: &str, command: &str) -> (r: Vec<String>)
    ensures
        views_of(r@) == seq!["-s"@, device@, "shell"@, command@],
{
    let mut r: Vec<String> = Vec::new();
    assert(views_of(r@) =~= Seq::<Seq<char>>::empty());
    push_lit(&mut r, "-s");
    push_string(&mut r, device.to_owned());
    push_lit(&mut r, "shell");
    push_string(&mut r, command.to_owned());
    assert(views_of(r@) =~= seq!["-s"@, device@, "shell"@, command@]);
    r
}

/// `adb -s <device> push <file> /sdcard/Download/`.
pub fn push_invocation(device: &str, file_path: &str) -> (r: Vec<String>)
    ensures
        views_of(r@) == seq!["-s"@, device@, "push"@, file_path@, "/sdcard/Download/"@],
{
    let mut r: Vec<String> = Vec::new();
    assert(views_of(r@) =~= Seq::<Seq<char>>::empty());
    push_lit(&mut r, "-s");
    push_string(&mut r, device.to_owned());
    push_lit(&mut r, "push");
    push_string(&mut r, file_path.to_owned());
    push_lit(&mut r, "/sdcard/Download/");
    assert(views_of(r@) =~= seq!["-s"@, device@, "push"@, file_path@, "/sdcard/Download/"@]);
    r
}

/// `adb -s <device> install <file>`.
pub fn install_invocation(device: &str, file_path: &str) -> (r: Vec<String>)
    ensures
        views_of(r@) == seq!["-s"@, device@, "install"@, file_path@],
{
    let mut r: Vec<String> = Vec::new();
    assert(views_of(r@) =~= Seq::<Seq<char>>::empty());
    push_lit(&mut r, "-s");
    push_string(&mut r, device.to_owned());
    push_lit(&mut r, "install");
    push_string(&mut r, file_path.to_owned());
    assert(views_of(r@) =~= seq!["-s"@, device@, "install"@, file_path@]);
    r
}

/// `scrcpy -s <device> <flag>`, used to list the options a flag offers.
pub fn list_options_invocation(device: &str, flag: &str) -> (r: Vec<String>)
    ensures
        views_of(r@) == seq!["-s"@, device@, flag@],
{
    let mut r: Vec<String> = Vec::new();
    assert(views_of(r@) =~= Seq::<Seq<char>>::empty());
    push_lit(&mut r, "-s");
    push_string(&mut r, device.to_owned());
    push_string(&mut r, flag.to_owned());
    assert(views_of(r@) =~= seq!["-s"@, device@, flag@]);
    r
}

/// After `adb kill-server`, the bulk termination runs one more OS command as
/// a safety net, chosen by platform.
pub open spec fn spec_kill_followup(host: HostOs) -> (Seq<char>, Seq<Seq<char>>) {
    match host {
        HostOs::Windows => ("taskkill"@, seq!["/F"@, "/IM"@, "adb.exe"@, "/T"@]),
        _ => ("pkill"@, seq!["adb"@]),
    }
}

pub fn kill_followup(host: HostOs) -> (r: (String, Vec<String>))
    ensures
        r.0@ == spec_kill_followup(host).0,
        views_of(r.1@) == spec_kill_followup(host).1,
{
    match host {
        HostOs::Windows => {
            let mut args: Vec<String> = Vec::new();
            assert(views_of(args@) =~= Seq::<Seq<char>>::empty());
            push_lit(&mut args, "/F");
            push_lit(&mut args, "/IM");
            push_lit(&mut args, "adb.exe");
            push_lit(&mut args, "/T");
            assert(views_of(args@) =~= seq!["/F"@, "/IM"@, "adb.exe"@, "/T"@]);
            (String::from_str("taskkill"), args)
        },
        _ => {
            let mut args: Vec<String> = Vec::new();
            assert(views_of(args@) =~= Seq::<Seq<char>>::empty());
            push_lit(&mut args, "adb");
            assert(views_of(args@) =~= seq!["adb"@]);
            (String::from_str("pkill"), args)
        },
    }
}

/// What a run of the mirroring binary's version check can come to.
pub enum VersionCheck {
    /// It ran and exited successfully.
    Succeeded,
    /// It ran but exited with a non-zero status.
    ExitedNonZero,
    /// It could not be started at all.
    SpawnFailed,
}

/// Found only when the version run succeeded, with the message the caller
/// displays.
pub fn check_verdict(outcome: VersionCheck) -> (r: (bool, String))
    ensures
        r.0 == (outcome is Succeeded),
        outcome is Succeeded ==> r.1@ == "Scrcpy Ready"@,
        outcome is ExitedNonZero ==> r.1@ == "Failed to start scrcpy (Exit Code != 0)"@,
        outcome is SpawnFailed ==> r.1@ == "Scrcpy not found"@,
{
    match outcome {
        VersionCheck::Succeeded => (true, String::from_str("Scrcpy Ready")),
        VersionCheck::ExitedNonZero => (
            false,
            String::from_str("Failed to start scrcpy (Exit Code != 0)"),
        ),
        VersionCheck::SpawnFailed => (false, String::from_str("Scrcpy not found")),
    }
}

/// The message a command reports: its standard output unless that is empty,
/// then its standard error.
pub open spec fn spec_message_of(out: Seq<char>, err: Seq<char>) -> Seq<char> {
    if out.len() == 0 {
        err
    } else {
        out
    }
}

pub fn message_of(out: &str, err: &str) -> (r: String)
    ensures
        r@ == spec_message_of(out@, err@),
{
    if out.is_empty() {
        err.to_owned()
    } else {
        out.to_owned()
    }
}

/// A connect attempt succeeded only when the process exited well and its
/// output names neither failure marker.
pub open spec fn spec_connect_success(status_ok: bool, out: Seq<char>) -> bool {
    status_ok && !spec_contains_str(out, "cannot connect"@) && !spec_contains_str(out, "failed"@)
}

/// The connect verdict over the trimmed outputs.
pub fn connect_verdict(status_ok: bool, out: &str, err: &str) -> (r: (bool, String))
    ensures
        r.0 == spec_connect_success(status_ok, out@),
        r.1@ == spec_message_of(out@, err@),
{
    let success = status_ok && !contains_str(out, "cannot connect") && !contains_str(
        out,
        "failed",
    );
    (success, message_of(out, err))
}

/// A pairing succeeded only when the process exited well and either stream
/// carries the success marker.
pub open spec fn spec_pair_success(status_ok: bool, out: Seq<char>, err: Seq<char>) -> bool {
    status_ok && (spec_contains_str(out, "Successfully paired"@) || spec_contains_str(
        err,
        "Successfully paired"@,
    ))
}

/// The pairing verdict over the trimmed outputs.
pub fn pair_verdict(status_ok: bool, out: &str, err: &str) -> (r: (bool, String))
    ensures
        r.0 == spec_pair_success(status_ok, out@, err@),
        r.1@ == spec_message_of(out@, err@),
{
    let success = status_ok && (contains_str(out, "Successfully paired") || contains_str(
        err,
        "Successfully paired",
    ));
    (success, message_of(out, err))
}

/// The file-push verdict and its fixed messages.
pub fn push_verdict(status_ok: bool) -> (r: (bool, String))
    ensures
        r.0 == status_ok,
        status_ok ==> r.1@ == "File pushed to Downloads"@,
        !status_ok ==> r.1@ == "Transfer failed"@,
{
    if status_ok {
        (true, String::from_str("File pushed to Downloads"))
    } else {
        (false, String::from_str("Transfer failed"))
    }
}

/// Success reports the trimmed standard output; anything else reports the
/// trimmed standard error.
pub fn install_verdict(status_ok: bool, out: &str, err: &str) -> (r: (bool, String))
    ensures
        r.0 == status_ok,
        status_ok ==> r.1@ == spec_trim(out@),
        !status_ok ==> r.1@ == spec_trim(err@),
{
    if status_ok {
        (true, trim_str(out))
    } else {
        (false, trim_str(err))
    }
}

/// Both output streams joined, as the option-listing command reports them:
/// the mirroring binary prints its lists mostly to standard error.
pub fn combined_output(out: &str, err: &str) -> (r: String)
    ensures
        r@ == out@ + err@,
{
    let mut s = out.to_owned();
    s.append(err);
    s
}

/// The banner label of a session mode.
pub open spec fn spec_mode_label(mode: Seq<char>) -> Seq<char> {
    if mode == "camera"@ {
        "Camera Mode"@
    } else if mode == "desktop"@ {
        "Desktop Mode"@
    } else {
        "Screen Mirroring"@
    }
}

pub fn mode_label(mode: &str) -> (r: String)
    ensures
        r@ == spec_mode_label(mode@),
{
    if str_eq(mode, "camera") {
        String::from_str("Camera Mode")
    } else if str_eq(mode, "desktop") {
        String::from_str("Desktop Mode")
    } else {
        String::from_str("Screen Mirroring")
    }
}

/// The banner label of the requested resolution cap.
pub open spec fn spec_res_label(res: Option<Seq<char>>) -> Seq<char> {
    match res {
        Some(r) => if r == "0"@ {
            "Original"@
        } else {
            r
        },
        None => "Original"@,
    }
}

pub fn res_label(res: &Option<String>) -> (r: String)
    ensures
        r@ == spec_res_label(crate::config::opt_view(*res)),
{
    match res {
        Some(s) => {
            if str_eq(s.as_str(), "0") {
                String::from_str("Original")
            } else {
                s.clone()
            }
        },
        None => String::from_str("Original"),
    }
}

/// The banner label of the bitrate, defaulting to 8.
pub fn bitrate_label(bitrate: Option<u32>) -> (r: String)
    ensures
        r@ == spec_dec(
            match bitrate {
                Some(n) => n as int,
                None => 8,
            },
        ) + "Mbps"@,
{
    let n = match bitrate {
        Some(n) => n,
        None => 8,
    };
    let mut s = u32_to_string(n);
    s.append("Mbps");
    s
}

/// The banner label of the frame rate, defaulting to 60.
pub fn fps_label(fps: Option<u32>) -> (r: String)
    ensures
        r@ == spec_dec(
            match fps {
                Some(n) => n as int,
                None => 60,
            },
        ) + "fps"@,
{
    let n = match fps {
        Some(n) => n,
        None => 60,
    };
    let mut s = u32_to_string(n);
    s.append("fps");
    s
}

/// The arguments joined by single spaces, for the echoed command line.
pub open spec fn spec_join_spaces(v: Seq<Seq<char>>) -> Seq<char>
    decreases v.len(),
{
    if v.len() == 0 {
        Seq::empty()
    } else if v.len() == 1 {
        v[0]
    } else {
        spec_join_spaces(v.drop_last()) + " "@ + v.last()
    }
}

pub fn join_spaces(v: &Vec<String>) -> (r: String)
    ensures
        r@ == spec_join_spaces(views_of(v@)),
{
    let n = v.len();
    let mut s = String::new();
    let mut i: usize = 0;
    while i < n
        invariant
            n == v@.len(),
            i <= n,
            s@ == spec_join_spaces(views_of(v@).take(i as int)),
        decreases n - i,
    {
        proof {
            assert(views_of(v@).take(i + 1).drop_last() =~= views_of(v@).take(i as int));
            assert(views_of(v@).take(i + 1).last() == views_of(v@)[i as int]);
        }
        if i > 0 {
            s.append(" ");
        } else {
            proof {
                assert(views_of(v@).take(1)[0] == views_of(v@)[0]);
            }
        }
        s.append(v[i].as_str());
        i += 1;
    }
    proof {
        assert(views_of(v@).take(n as int) =~= views_of(v@));
    }
    s
}

} // verus!
