use scrcpy_core::invocations::{
    VersionCheck, bitrate_label, check_verdict, combined_output, connect_verdict, fps_label,
    install_verdict, join_spaces, kill_followup, list_options_invocation, mode_label,
    pair_invocation, pair_verdict, push_invocation, push_verdict, res_label, shell_invocation,
    connect_invocation,
};
use scrcpy_core::registry::HostOs;

#[test]
fn invocations_carry_their_fixed_shape() {
    assert_eq!(connect_invocation("10.0.0.2:5555"), vec!["connect".to_string(), "10.0.0.2:5555".to_string()]);
    assert_eq!(
        pair_invocation("10.0.0.2:37000", "123456"),
        vec!["pair".to_string(), "10.0.0.2:37000".to_string(), "123456".to_string()]
    );
    assert_eq!(
        shell_invocation("serial", "getprop ro.product.model"),
        vec!["-s".to_string(), "serial".to_string(), "shell".to_string(), "getprop ro.product.model".to_string()]
    );
    assert_eq!(
        push_invocation("serial", "/tmp/f.apk"),
        vec![
            "-s".to_string(),
            "serial".to_string(),
            "push".to_string(),
            "/tmp/f.apk".to_string(),
            "/sdcard/Download/".to_string()
        ]
    );
    assert_eq!(
        list_options_invocation("serial", "--list-cameras"),
        vec!["-s".to_string(), "serial".to_string(), "--list-cameras".to_string()]
    );
}

#[test]
fn kill_followup_by_platform() {
    let (prog, args) = kill_followup(HostOs::Windows);
    assert_eq!(prog, "taskkill");
    assert_eq!(args, vec!["/F".to_string(), "/IM".to_string(), "adb.exe".to_string(), "/T".to_string()]);
    let (prog, args) = kill_followup(HostOs::Linux);
    assert_eq!(prog, "pkill");
    assert_eq!(args, vec!["adb".to_string()]);
}

#[test]
fn check_verdict_messages() {
    assert_eq!(check_verdict(VersionCheck::Succeeded), (true, "Scrcpy Ready".to_string()));
    assert_eq!(
        check_verdict(VersionCheck::ExitedNonZero),
        (false, "Failed to start scrcpy (Exit Code != 0)".to_string())
    );
    assert_eq!(check_verdict(VersionCheck::SpawnFailed), (false, "Scrcpy not found".to_string()));
}

#[test]
fn connect_verdict_reads_failure_markers() {
    assert_eq!(connect_verdict(true, "connected to 10.0.0.2:5555", ""), (true, "connected to 10.0.0.2:5555".to_string()));
    let (ok, msg) = connect_verdict(true, "cannot connect to 10.0.0.2:5555", "");
    assert!(!ok);
    assert_eq!(msg, "cannot connect to 10.0.0.2:5555");
    let (ok, _) = connect_verdict(true, "failed to authenticate", "");
    assert!(!ok);
    let (ok, msg) = connect_verdict(false, "", "transport error");
    assert!(!ok);
    assert_eq!(msg, "transport error");
}

#[test]
fn pair_verdict_accepts_marker_on_either_stream() {
    let (ok, _) = pair_verdict(true, "Successfully paired to 10.0.0.2:37000", "");
    assert!(ok);
    let (ok, _) = pair_verdict(true, "", "Successfully paired to 10.0.0.2:37000");
    assert!(ok);
    let (ok, _) = pair_verdict(true, "Pairing failed", "");
    assert!(!ok);
    let (ok, _) = pair_verdict(false, "Successfully paired", "");
    assert!(!ok);
}

#[test]
fn push_and_install_verdicts() {
    assert_eq!(push_verdict(true), (true, "File pushed to Downloads".to_string()));
    assert_eq!(push_verdict(false), (false, "Transfer failed".to_string()));
    assert_eq!(install_verdict(true, "  Success\n", "ignored"), (true, "Success".to_string()));
    assert_eq!(install_verdict(false, "ignored", " INSTALL_FAILED \n"), (false, "INSTALL_FAILED".to_string()));
}

#[test]
fn combined_output_concatenates_both_streams() {
    assert_eq!(combined_output("a\n", "b\n"), "a\nb\n");
    assert_eq!(combined_output("", "only-err"), "only-err");
}

#[test]
fn banner_labels() {
    assert_eq!(mode_label("camera"), "Camera Mode");
    assert_eq!(mode_label("desktop"), "Desktop Mode");
    assert_eq!(mode_label("mirror"), "Screen Mirroring");
    assert_eq!(res_label(&None), "Original");
    assert_eq!(res_label(&Some("0".to_string())), "Original");
    assert_eq!(res_label(&Some("1920".to_string())), "1920");
    assert_eq!(bitrate_label(None), "8Mbps");
    assert_eq!(bitrate_label(Some(12)), "12Mbps");
    assert_eq!(fps_label(None), "60fps");
    assert_eq!(fps_label(Some(30)), "30fps");
}

#[test]
fn join_spaces_echoes_the_command_line() {
    let args = vec!["-s".to_string(), "serial".to_string(), "--fullscreen".to_string()];
    assert_eq!(join_spaces(&args), "-s serial --fullscreen");
    assert_eq!(join_spaces(&Vec::new()), "");
}
