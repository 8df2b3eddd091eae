use scrcpy_core::args::build_scrcpy_args;
use scrcpy_core::config::ScrcpyConfig;

fn base_config(device: &str, mode: &str) -> ScrcpyConfig {
    ScrcpyConfig {
        device: device.to_string(),
        session_mode: mode.to_string(),
        bitrate: None,
        fps: None,
        stay_awake: None,
        turn_off: None,
        audio_enabled: None,
        always_on_top: None,
        fullscreen: None,
        borderless: None,
        record: None,
        record_path: None,
        scrcpy_path: None,
        otg_enabled: None,
        otg_pure: None,
        camera_facing: None,
        camera_id: None,
        codec: None,
        camera_ar: None,
        camera_high_speed: None,
        vd_width: None,
        vd_height: None,
        vd_dpi: None,
        rotation: None,
        res: None,
    }
}

#[test]
fn test_build_scrcpy_args_mirror_defaults() {
    let config = base_config("device1", "mirror");

    let args = build_scrcpy_args(&config, None);
    assert!(args.contains(&"-s".to_string()));
    assert!(args.contains(&"device1".to_string()));
    assert!(args.contains(&"--video-codec=h264".to_string()));
}

#[test]
fn test_build_scrcpy_args_camera_mode() {
    let mut config = base_config("device1", "camera");
    config.fps = Some(30);
    config.camera_facing = Some("front".to_string());

    let args = build_scrcpy_args(&config, None);
    assert!(args.contains(&"--video-source=camera".to_string()));
    assert!(args.contains(&"--camera-facing=front".to_string()));
    assert!(args.contains(&"--camera-fps".to_string()));
    assert!(args.contains(&"30".to_string()));
}

#[test]
fn test_build_scrcpy_args_bitrate_and_fps() {
    let mut config = base_config("device1", "mirror");
    config.bitrate = Some(8);
    config.fps = Some(60);

    let args = build_scrcpy_args(&config, None);
    assert!(args.contains(&"--video-bit-rate".to_string()));
    assert!(args.contains(&"8M".to_string()));
    assert!(args.contains(&"--max-fps".to_string()));
    assert!(args.contains(&"60".to_string()));
}

#[test]
fn desktop_session_sizes_virtual_display() {
    let mut config = base_config("emulator-5554", "desktop");
    config.vd_width = Some(1280);
    config.vd_height = Some(720);
    config.vd_dpi = Some(320);

    let args = build_scrcpy_args(&config, None);
    assert!(args.contains(&"--new-display=1280x720/320".to_string()));
    assert!(args.contains(&"--video-buffer=100".to_string()));
}

#[test]
fn desktop_session_default_dimensions() {
    let config = base_config("device1", "desktop");
    let args = build_scrcpy_args(&config, None);
    assert!(args.contains(&"--new-display=1920x1080/420".to_string()));
}

#[test]
fn otg_pure_over_network_emulates_otg() {
    let mut config = base_config("192.168.1.5:5555", "mirror");
    config.otg_enabled = Some(true);
    config.otg_pure = Some(true);

    let args = build_scrcpy_args(&config, None);
    assert!(args.contains(&"--no-video".to_string()));
    assert!(args.contains(&"--no-audio".to_string()));
    assert!(args.contains(&"--keyboard=uhid".to_string()));
    assert!(args.contains(&"--mouse=uhid".to_string()));
    assert!(!args.contains(&"--otg".to_string()));
}

#[test]
fn otg_pure_over_usb_uses_otg_flag() {
    let mut config = base_config("device1", "mirror");
    config.otg_enabled = Some(true);
    config.otg_pure = Some(true);

    let args = build_scrcpy_args(&config, None);
    assert!(args.contains(&"--otg".to_string()));
    assert!(!args.contains(&"--no-video".to_string()));
}

#[test]
fn full_mirror_options_in_exact_order() {
    let mut config = base_config("device1", "mirror");
    config.bitrate = Some(8);
    config.fps = Some(60);
    config.audio_enabled = Some(false);
    config.always_on_top = Some(true);
    config.fullscreen = Some(true);
    config.borderless = Some(true);
    config.rotation = Some("90".to_string());
    config.stay_awake = Some(true);
    config.turn_off = Some(true);
    config.res = Some("1280".to_string());

    let args = build_scrcpy_args(&config, None);
    let expected: Vec<String> = [
        "-s",
        "device1",
        "--video-codec=h264",
        "--video-bit-rate",
        "8M",
        "--no-audio",
        "--always-on-top",
        "--fullscreen",
        "--window-borderless",
        "--orientation",
        "90",
        "--stay-awake",
        "--turn-screen-off",
        "--no-power-on",
        "--max-fps",
        "60",
        "--max-size",
        "1280",
    ]
    .iter()
    .map(|s| s.to_string())
    .collect();
    assert_eq!(args, expected);
}

#[test]
fn camera_explicit_id_beats_facing() {
    let mut config = base_config("device1", "camera");
    config.camera_id = Some("2".to_string());
    config.camera_facing = Some("front".to_string());

    let args = build_scrcpy_args(&config, None);
    assert!(args.contains(&"--camera-id=2".to_string()));
    assert!(!args.contains(&"--camera-facing=front".to_string()));
}

#[test]
fn camera_high_speed_defaults_fps_to_60() {
    let mut config = base_config("device1", "camera");
    config.camera_high_speed = Some(true);

    let args = build_scrcpy_args(&config, None);
    assert!(args.contains(&"--camera-high-speed".to_string()));
    let i = args.iter().position(|a| a == "--camera-fps").unwrap();
    assert_eq!(args[i + 1], "60");
}

#[test]
fn camera_mode_skips_device_control_flags() {
    let mut config = base_config("device1", "camera");
    config.stay_awake = Some(true);
    config.turn_off = Some(true);

    let args = build_scrcpy_args(&config, None);
    assert!(!args.contains(&"--stay-awake".to_string()));
    assert!(!args.contains(&"--turn-screen-off".to_string()));
}

#[test]
fn zero_rotation_and_zero_res_are_dropped() {
    let mut config = base_config("device1", "mirror");
    config.rotation = Some("0".to_string());
    config.res = Some("0".to_string());

    let args = build_scrcpy_args(&config, None);
    assert!(!args.contains(&"--orientation".to_string()));
    assert!(!args.contains(&"--max-size".to_string()));
}

#[test]
fn empty_device_omits_selector() {
    let config = base_config("", "mirror");
    let args = build_scrcpy_args(&config, None);
    assert!(!args.contains(&"-s".to_string()));
    assert_eq!(args[0], "--video-codec=h264");
}

#[test]
fn recording_names_file_after_sanitized_device() {
    let mut config = base_config("1.2.3.4:5555", "mirror");
    config.record = Some(true);
    config.record_path = Some("/tmp/videos".to_string());

    let args = build_scrcpy_args(&config, None);
    let rec = args.iter().find(|a| a.starts_with("--record=")).unwrap();
    assert!(rec.starts_with("--record=/tmp/videos"));
    assert!(rec.contains("scrcpy_1.2.3.4-5555_"));
    assert!(rec.ends_with(".mkv"));
    assert!(!rec.contains(':'));
}

#[test]
fn recording_falls_back_to_videos_dir_then_cwd() {
    let mut config = base_config("device1", "mirror");
    config.record = Some(true);
    config.record_path = Some("   ".to_string());

    let args = build_scrcpy_args(&config, Some("/home/u/Videos".to_string()));
    let rec = args.iter().find(|a| a.starts_with("--record=")).unwrap();
    assert!(rec.starts_with("--record=/home/u/Videos"));

    let args = build_scrcpy_args(&config, None);
    let rec = args.iter().find(|a| a.starts_with("--record=")).unwrap();
    assert!(rec.starts_with("--record=."));
}

#[test]
fn otg_enabled_without_pure_keeps_mirroring() {
    let mut config = base_config("device1", "mirror");
    config.otg_enabled = Some(true);

    let args = build_scrcpy_args(&config, None);
    assert!(args.contains(&"--keyboard=uhid".to_string()));
    assert!(args.contains(&"--mouse=uhid".to_string()));
    assert!(!args.contains(&"--otg".to_string()));
    assert!(!args.contains(&"--no-video".to_string()));
}
