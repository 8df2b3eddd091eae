//! The argument builder: a pure function from a session configuration to
//! the ordered command line handed to the mirroring binary. Mode-exclusive
//! flag groups are kept apart by branch structure; nothing ever removes a
//! flag that an earlier branch pushed.
use vstd::prelude::*;
use crate::config::{ScrcpyConfig, ConfigView, opt_view};
use crate::text::{
    views_of, spec_dec, spec_replace, spec_trim, u32_to_string, replace_char, trim_str,
    contains_char, str_eq, push_lit, push_string,
};
use crate::resolver::{spec_join_path, join_path};

verus! {

/// An optional toggle that the caller switched on.
pub open spec fn flag_set(o: Option<bool>) -> bool {
    o == Some(true)
}

/// The device-selector pair, present when a device identifier is given.
pub open spec fn device_args(c: ConfigView) -> Seq<Seq<char>> {
    if c.device.len() > 0 {
        seq!["-s"@, c.device]
    } else {
        Seq::empty()
    }
}

/// The requested video codec, `h264` when none is named.
pub open spec fn codec_of(c: ConfigView) -> Seq<char> {
    match c.codec {
        Some(x) => x,
        None => "h264"@,
    }
}

pub open spec fn codec_args(c: ConfigView) -> Seq<Seq<char>> {
    seq!["--video-codec="@ + codec_of(c)]
}

/// Mirror mode with both OTG toggles on: the pure pass-through variant.
pub open spec fn otg_pure_active(c: ConfigView) -> bool {
    c.session_mode == "mirror"@ && flag_set(c.otg_enabled) && flag_set(c.otg_pure)
}

/// A device identifier that names a network transport rather than a cable.
pub open spec fn net_device(c: ConfigView) -> bool {
    c.device.contains('.') || c.device.contains(':')
}

/// OTG over a network transport cannot use `--otg`; it is emulated by
/// suppressing video and audio and forwarding virtual keyboard and mouse.
pub open spec fn otg_args(c: ConfigView) -> Seq<Seq<char>> {
    if net_device(c) {
        seq!["--no-video"@, "--no-audio"@, "--keyboard=uhid"@, "--mouse=uhid"@]
    } else {
        seq!["--otg"@]
    }
}

pub open spec fn bitrate_args(c: ConfigView) -> Seq<Seq<char>> {
    match c.bitrate {
        Some(n) => seq!["--video-bit-rate"@, spec_dec(n as int) + "M"@],
        None => Seq::empty(),
    }
}

pub open spec fn window_args(c: ConfigView) -> Seq<Seq<char>> {
    (if c.audio_enabled == Some(false) {
        seq!["--no-audio"@]
    } else {
        Seq::empty()
    }) + (if flag_set(c.always_on_top) {
        seq!["--always-on-top"@]
    } else {
        Seq::empty()
    }) + (if flag_set(c.fullscreen) {
        seq!["--fullscreen"@]
    } else {
        Seq::empty()
    }) + (if flag_set(c.borderless) {
        seq!["--window-borderless"@]
    } else {
        Seq::empty()
    })
}

pub open spec fn rotation_args(c: ConfigView) -> Seq<Seq<char>> {
    match c.rotation {
        Some(r) => if r != "0"@ {
            seq!["--orientation"@, r]
        } else {
            Seq::empty()
        },
        None => Seq::empty(),
    }
}

/// Device-control flags, meaningless for a camera-only stream.
pub open spec fn control_args(c: ConfigView) -> Seq<Seq<char>> {
    if c.session_mode != "camera"@ {
        (if flag_set(c.stay_awake) {
            seq!["--stay-awake"@]
        } else {
            Seq::empty()
        }) + (if flag_set(c.turn_off) {
            seq!["--turn-screen-off"@, "--no-power-on"@]
        } else {
            Seq::empty()
        })
    } else {
        Seq::empty()
    }
}

pub open spec fn facing_args(c: ConfigView) -> Seq<Seq<char>> {
    match c.camera_facing {
        Some(f) => seq!["--camera-facing="@ + f],
        None => Seq::empty(),
    }
}

/// Camera selection: an explicit id wins; an empty or missing id falls back
/// to the requested facing direction.
pub open spec fn camera_select_args(c: ConfigView) -> Seq<Seq<char>> {
    match c.camera_id {
        Some(cid) => if cid.len() > 0 {
            seq!["--camera-id="@ + cid]
        } else {
            facing_args(c)
        },
        None => facing_args(c),
    }
}

pub open spec fn camera_ar_args(c: ConfigView) -> Seq<Seq<char>> {
    match c.camera_ar {
        Some(ar) => if ar != "0"@ {
            seq!["--camera-ar="@ + ar]
        } else {
            Seq::empty()
        },
        None => Seq::empty(),
    }
}

pub open spec fn camera_args(c: ConfigView) -> Seq<Seq<char>> {
    seq!["--video-source=camera"@] + camera_select_args(c) + camera_ar_args(c) + (if flag_set(
        c.camera_high_speed,
    ) {
        seq!["--camera-high-speed"@]
    } else {
        Seq::empty()
    })
}

/// The virtual display dimensions, defaulting to 1920x1080 at 420 dpi.
pub open spec fn vd_width_of(c: ConfigView) -> u32 {
    match c.vd_width {
        Some(w) => w,
        None => 1920,
    }
}

pub open spec fn vd_height_of(c: ConfigView) -> u32 {
    match c.vd_height {
        Some(h) => h,
        None => 1080,
    }
}

pub open spec fn vd_dpi_of(c: ConfigView) -> u32 {
    match c.vd_dpi {
        Some(d) => d,
        None => 420,
    }
}

pub open spec fn desktop_args(c: ConfigView) -> Seq<Seq<char>> {
    seq![
        "--new-display="@ + spec_dec(vd_width_of(c) as int) + "x"@ + spec_dec(
            vd_height_of(c) as int,
        ) + "/"@ + spec_dec(vd_dpi_of(c) as int),
        "--video-buffer=100"@,
    ]
}

/// The mode-specific block: camera source selection, a sized virtual
/// display, or (for plain mirroring) virtual input devices when OTG is
/// merely enabled.
pub open spec fn mode_args(c: ConfigView) -> Seq<Seq<char>> {
    if c.session_mode == "camera"@ {
        camera_args(c)
    } else if c.session_mode == "desktop"@ {
        desktop_args(c)
    } else {
        if flag_set(c.otg_enabled) {
            seq!["--keyboard=uhid"@, "--mouse=uhid"@]
        } else {
            Seq::empty()
        }
    }
}

/// The frame-rate flag name depends on the mode; high-speed camera capture
/// defaults to 60 when no rate is given.
pub open spec fn fps_args(c: ConfigView) -> Seq<Seq<char>> {
    match c.fps {
        Some(n) => seq![
            if c.session_mode == "camera"@ {
                "--camera-fps"@
            } else {
                "--max-fps"@
            },
            spec_dec(n as int),
        ],
        None => if c.session_mode == "camera"@ && flag_set(c.camera_high_speed) {
            seq!["--camera-fps"@, "60"@]
        } else {
            Seq::empty()
        },
    }
}

pub open spec fn res_args(c: ConfigView) -> Seq<Seq<char>> {
    match c.res {
        Some(r) => if r != "0"@ {
            seq!["--max-size"@, r]
        } else {
            Seq::empty()
        },
        None => Seq::empty(),
    }
}

/// The directory that a recording lands in: the explicit path when its trim
/// is non-empty, else the platform videos directory, else the current one.
pub open spec fn record_dir(c: ConfigView, fallback: Option<Seq<char>>) -> Seq<char> {
    let explicit = match c.record_path {
        Some(p) => p,
        None => Seq::empty(),
    };
    if spec_trim(explicit).len() == 0 {
        match fallback {
            Some(d) => d,
            None => "."@,
        }
    } else {
        explicit
    }
}

/// The recording file name embeds the colon-sanitized device identifier and
/// a timestamp.
pub open spec fn record_file(c: ConfigView, ts: Seq<char>) -> Seq<char> {
    "scrcpy_"@ + spec_replace(c.device, ':', '-') + "_"@ + ts + ".mkv"@
}

pub open spec fn record_args(
    c: ConfigView,
    fallback: Option<Seq<char>>,
    ts: Seq<char>,
    sep: char,
) -> Seq<Seq<char>> {
    if flag_set(c.record) {
        seq!["--record="@ + spec_join_path(record_dir(c, fallback), sep, record_file(c, ts))]
    } else {
        Seq::empty()
    }
}

pub open spec fn normal_args(
    c: ConfigView,
    fallback: Option<Seq<char>>,
    ts: Seq<char>,
    sep: char,
) -> Seq<Seq<char>> {
    bitrate_args(c) + window_args(c) + rotation_args(c) + control_args(c) + mode_args(c)
        + fps_args(c) + res_args(c) + record_args(c, fallback, ts, sep)
}

/// The whole argument list for one session: the device selector and codec,
/// then either the OTG pass-through block or the normal block.
pub open spec fn arg_list(
    c: ConfigView,
    fallback: Option<Seq<char>>,
    ts: Seq<char>,
    sep: char,
) -> Seq<Seq<char>> {
    device_args(c) + codec_args(c) + (if otg_pure_active(c) {
        otg_args(c)
    } else {
        normal_args(c, fallback, ts, sep)
    })
}

pub proof fn lemma_views_of_concat(a: Seq<String>, b: Seq<String>)
    ensures
        views_of(a + b) == views_of(a) + views_of(b),
{
    assert(views_of(a + b) =~= views_of(a) + views_of(b));
}

fn device_segment(c: &ScrcpyConfig) -> (r: Vec<String>)
    ensures
        views_of(r@) == device_args(c@),
{
    let mut r: Vec<String> = Vec::new();
    assert(views_of(r@) =~= Seq::<Seq<char>>::empty());
    if !c.device.as_str().is_empty() {
        push_lit(&mut r, "-s");
        push_string(&mut r, c.device.clone());
        assert(views_of(r@) =~= device_args(c@));
    }
    r
}

fn codec_segment(c: &ScrcpyConfig) -> (r: Vec<String>)
    ensures
        views_of(r@) == codec_args(c@),
{
    let mut r: Vec<String> = Vec::new();
    assert(views_of(r@) =~= Seq::<Seq<char>>::empty());
    let mut s = String::from_str("--video-codec=");
    match &c.codec {
        Some(x) => s.append(x.as_str()),
        None => s.append("h264"),
    }
    push_string(&mut r, s);
    assert(views_of(r@) =~= codec_args(c@));
    r
}

fn otg_segment(c: &ScrcpyConfig) -> (r: Vec<String>)
    ensures
        views_of(r@) == otg_args(c@),
{
    let mut r: Vec<String> = Vec::new();
    assert(views_of(r@) =~= Seq::<Seq<char>>::empty());
    if contains_char(c.device.as_str(), '.') || contains_char(c.device.as_str(), ':') {
        push_lit(&mut r, "--no-video");
        push_lit(&mut r, "--no-audio");
        push_lit(&mut r, "--keyboard=uhid");
        push_lit(&mut r, "--mouse=uhid");
        assert(views_of(r@) =~= otg_args(c@));
    } else {
        push_lit(&mut r, "--otg");
        assert(views_of(r@) =~= otg_args(c@));
    }
    r
}

fn bitrate_segment(c: &ScrcpyConfig) -> (r: Vec<String>)
    ensures
        views_of(r@) == bitrate_args(c@),
{
    let mut r: Vec<String> = Vec::new();
    assert(views_of(r@) =~= Seq::<Seq<char>>::empty());
    if let Some(n) = c.bitrate {
        push_lit(&mut r, "--video-bit-rate");
        let mut v = u32_to_string(n);
        v.append("M");
        push_string(&mut r, v);
        assert(views_of(r@) =~= bitrate_args(c@));
    }
    r
}

fn window_segment(c: &ScrcpyConfig) -> (r: Vec<String>)
    ensures
        views_of(r@) == window_args(c@),
{
    let mut r: Vec<String> = Vec::new();
    assert(views_of(r@) =~= Seq::<Seq<char>>::empty());
    if let Some(audio) = c.audio_enabled {
        if !audio {
            push_lit(&mut r, "--no-audio");
        }
    }
    if let Some(aot) = c.always_on_top {
        if aot {
            push_lit(&mut r, "--always-on-top");
        }
    }
    if let Some(fs) = c.fullscreen {
        if fs {
            push_lit(&mut r, "--fullscreen");
        }
    }
    if let Some(bl) = c.borderless {
        if bl {
            push_lit(&mut r, "--window-borderless");
        }
    }
    assert(views_of(r@) =~= window_args(c@));
    r
}

fn rotation_segment(c: &ScrcpyConfig) -> (r: Vec<String>)
    ensures
        views_of(r@) == rotation_args(c@),
{
    let mut r: Vec<String> = Vec::new();
    assert(views_of(r@) =~= Seq::<Seq<char>>::empty());
    if let Some(rot) = &c.rotation {
        if !str_eq(rot.as_str(), "0") {
            push_lit(&mut r, "--orientation");
            push_string(&mut r, rot.clone());
        }
    }
    assert(views_of(r@) =~= rotation_args(c@));
    r
}

fn control_segment(c: &ScrcpyConfig) -> (r: Vec<String>)
    ensures
        views_of(r@) == control_args(c@),
{
    let mut r: Vec<String> = Vec::new();
    assert(views_of(r@) =~= Seq::<Seq<char>>::empty());
    if !str_eq(c.session_mode.as_str(), "camera") {
        if let Some(sa) = c.stay_awake {
            if sa {
                push_lit(&mut r, "--stay-awake");
            }
        }
        if let Some(to) = c.turn_off {
            if to {
                push_lit(&mut r, "--turn-screen-off");
                push_lit(&mut r, "--no-power-on");
            }
        }
    }
    assert(views_of(r@) =~= control_args(c@));
    r
}

fn facing_segment(c: &ScrcpyConfig) -> (r: Vec<String>)
    ensures
        views_of(r@) == facing_args(c@),
{
    let mut r: Vec<String> = Vec::new();
    assert(views_of(r@) =~= Seq::<Seq<char>>::empty());
    if let Some(facing) = &c.camera_facing {
        let mut s = String::from_str("--camera-facing=");
        s.append(facing.as_str());
        push_string(&mut r, s);
    }
    assert(views_of(r@) =~= facing_args(c@));
    r
}

fn camera_segment(c: &ScrcpyConfig) -> (r: Vec<String>)
    ensures
        views_of(r@) == camera_args(c@),
{
    let mut r: Vec<String> = Vec::new();
    assert(views_of(r@) =~= Seq::<Seq<char>>::empty());
    push_lit(&mut r, "--video-source=camera");
    let ghost base = r@;
    match &c.camera_id {
        Some(cid) => {
            if !cid.as_str().is_empty() {
                let mut s = String::from_str("--camera-id=");
                s.append(cid.as_str());
                push_string(&mut r, s);
            } else {
                let mut seg = facing_segment(c);
                proof {
                    lemma_views_of_concat(r@, seg@);
                }
                r.append(&mut seg);
            }
        },
        None => {
            let mut seg = facing_segment(c);
            proof {
                lemma_views_of_concat(r@, seg@);
            }
            r.append(&mut seg);
        },
    }
    assert(views_of(r@) =~= seq!["--video-source=camera"@] + camera_select_args(c@));
    if let Some(ar) = &c.camera_ar {
        if !str_eq(ar.as_str(), "0") {
            let mut s = String::from_str("--camera-ar=");
            s.append(ar.as_str());
            push_string(&mut r, s);
        }
    }
    assert(views_of(r@) =~= seq!["--video-source=camera"@] + camera_select_args(c@)
        + camera_ar_args(c@));
    if let Some(chs) = c.camera_high_speed {
        if chs {
            push_lit(&mut r, "--camera-high-speed");
        }
    }
    assert(views_of(r@) =~= camera_args(c@));
    r
}

fn desktop_segment(c: &ScrcpyConfig) -> (r: Vec<String>)
    ensures
        views_of(r@) == desktop_args(c@),
{
    let mut r: Vec<String> = Vec::new();
    assert(views_of(r@) =~= Seq::<Seq<char>>::empty());
    let w = match c.vd_width {
        Some(w) => w,
        None => 1920,
    };
    let h = match c.vd_height {
        Some(h) => h,
        None => 1080,
    };
    let dpi = match c.vd_dpi {
        Some(d) => d,
        None => 420,
    };
    let mut s = String::from_str("--new-display=");
    s.append(u32_to_string(w).as_str());
    s.append("x");
    s.append(u32_to_string(h).as_str());
    s.append("/");
    s.append(u32_to_string(dpi).as_str());
    push_string(&mut r, s);
    push_lit(&mut r, "--video-buffer=100");
    assert(views_of(r@) =~= desktop_args(c@));
    r
}

fn mode_segment(c: &ScrcpyConfig) -> (r: Vec<String>)
    ensures
        views_of(r@) == mode_args(c@),
{
    if str_eq(c.session_mode.as_str(), "camera") {
        camera_segment(c)
    } else if str_eq(c.session_mode.as_str(), "desktop") {
        desktop_segment(c)
    } else {
        let mut r: Vec<String> = Vec::new();
        assert(views_of(r@) =~= Seq::<Seq<char>>::empty());
        let otg_enabled = match c.otg_enabled {
            Some(b) => b,
            None => false,
        };
        if otg_enabled {
            push_lit(&mut r, "--keyboard=uhid");
            push_lit(&mut r, "--mouse=uhid");
        }
        assert(views_of(r@) =~= mode_args(c@));
        r
    }
}

fn fps_segment(c: &ScrcpyConfig) -> (r: Vec<String>)
    ensures
        views_of(r@) == fps_args(c@),
{
    let mut r: Vec<String> = Vec::new();
    assert(views_of(r@) =~= Seq::<Seq<char>>::empty());
    let is_camera = str_eq(c.session_mode.as_str(), "camera");
    if let Some(fps) = c.fps {
        if is_camera {
            push_lit(&mut r, "--camera-fps");
        } else {
            push_lit(&mut r, "--max-fps");
        }
        push_string(&mut r, u32_to_string(fps));
    } else {
        let chs = match c.camera_high_speed {
            Some(b) => b,
            None => false,
        };
        if is_camera && chs {
            push_lit(&mut r, "--camera-fps");
            push_lit(&mut r, "60");
        }
    }
    assert(views_of(r@) =~= fps_args(c@));
    r
}

fn res_segment(c: &ScrcpyConfig) -> (r: Vec<String>)
    ensures
        views_of(r@) == res_args(c@),
{
    let mut r: Vec<String> = Vec::new();
    assert(views_of(r@) =~= Seq::<Seq<char>>::empty());
    if let Some(res) = &c.res {
        if !str_eq(res.as_str(), "0") {
            push_lit(&mut r, "--max-size");
            push_string(&mut r, res.clone());
        }
    }
    assert(views_of(r@) =~= res_args(c@));
    r
}

fn record_segment(c: &ScrcpyConfig, fallback: &Option<String>, ts: &str, sep: char) -> (r: Vec<
    String,
>)
    ensures
        views_of(r@) == record_args(c@, opt_view(*fallback), ts@, sep),
{
    let mut r: Vec<String> = Vec::new();
    assert(views_of(r@) =~= Seq::<Seq<char>>::empty());
    let rec = match c.record {
        Some(b) => b,
        None => false,
    };
    if rec {
        let explicit = match &c.record_path {
            Some(p) => p.clone(),
            None => String::new(),
        };
        let dir = if trim_str(explicit.as_str()).as_str().is_empty() {
            match fallback {
                Some(d) => d.clone(),
                None => String::from_str("."),
            }
        } else {
            explicit
        };
        assert(dir@ == record_dir(c@, opt_view(*fallback)));
        let mut file = String::from_str("scrcpy_");
        file.append(replace_char(c.device.as_str(), ':', '-').as_str());
        file.append("_");
        file.append(ts);
        file.append(".mkv");
        assert(file@ == record_file(c@, ts@));
        let joined = join_path(dir.as_str(), sep, file.as_str());
        let mut s = String::from_str("--record=");
        s.append(joined.as_str());
        push_string(&mut r, s);
        assert(views_of(r@) =~= record_args(c@, opt_view(*fallback), ts@, sep));
    }
    r
}

/// Builds the full argument list for a known timestamp and path separator;
/// the result is exactly `arg_list` of the configuration's view.
pub fn build_scrcpy_args_with_timestamp(
    config: &ScrcpyConfig,
    video_dir_fallback: &Option<String>,
    ts: &str,
    sep: char,
) -> (r: Vec<String>)
    ensures
        views_of(r@) == arg_list(config@, opt_view(*video_dir_fallback), ts@, sep),
{
    let mut args = device_segment(config);
    let mut seg = codec_segment(config);
    proof {
        lemma_views_of_concat(args@, seg@);
    }
    args.append(&mut seg);
    assert(views_of(args@) =~= device_args(config@) + codec_args(config@));
    let otg_enabled = match config.otg_enabled {
        Some(b) => b,
        None => false,
    };
    let otg_pure = match config.otg_pure {
        Some(b) => b,
        None => false,
    };
    if str_eq(config.session_mode.as_str(), "mirror") && otg_enabled && otg_pure {
        let mut seg = otg_segment(config);
        proof {
            lemma_views_of_concat(args@, seg@);
        }
        args.append(&mut seg);
        assert(views_of(args@) =~= arg_list(config@, opt_view(*video_dir_fallback), ts@, sep));
        args
    } else {
        let ghost head = views_of(args@);
        let mut seg = bitrate_segment(config);
        proof {
            lemma_views_of_concat(args@, seg@);
        }
        args.append(&mut seg);
        let mut seg = window_segment(config);
        proof {
            lemma_views_of_concat(args@, seg@);
        }
        args.append(&mut seg);
        let mut seg = rotation_segment(config);
        proof {
            lemma_views_of_concat(args@, seg@);
        }
        args.append(&mut seg);
        let mut seg = control_segment(config);
        proof {
            lemma_views_of_concat(args@, seg@);
        }
        args.append(&mut seg);
        let mut seg = mode_segment(config);
        proof {
            lemma_views_of_concat(args@, seg@);
        }
        args.append(&mut seg);
        let mut seg = fps_segment(config);
        proof {
            lemma_views_of_concat(args@, seg@);
        }
        args.append(&mut seg);
        let mut seg = res_segment(config);
        proof {
            lemma_views_of_concat(args@, seg@);
        }
        args.append(&mut seg);
        let mut seg = record_segment(config, video_dir_fallback, ts, sep);
        proof {
            lemma_views_of_concat(args@, seg@);
        }
        args.append(&mut seg);
        assert(views_of(args@) =~= head + normal_args(
            config@,
            opt_view(*video_dir_fallback),
            ts@,
            sep,
        ));
        assert(views_of(args@) =~= arg_list(config@, opt_view(*video_dir_fallback), ts@, sep));
        args
    }
}

/// The list carries `f` somewhere.
pub open spec fn has_flag(a: Seq<Seq<char>>, f: Seq<char>) -> bool {
    a.contains(f)
}

/// The list carries the flag `k` immediately followed by the value `v`.
pub open spec fn has_pair(a: Seq<Seq<char>>, k: Seq<char>, v: Seq<char>) -> bool {
    exists|i: int| 0 <= i && i + 1 < a.len() && #[trigger] a[i] == k && a[i + 1] == v
}

pub proof fn lemma_flag_concat_l(a: Seq<Seq<char>>, b: Seq<Seq<char>>, f: Seq<char>)
    requires
        has_flag(a, f),
    ensures
        has_flag(a + b, f),
{
    let i = choose|i: int| 0 <= i < a.len() && a[i] == f;
    assert((a + b)[i] == f);
}

pub proof fn lemma_flag_concat_r(a: Seq<Seq<char>>, b: Seq<Seq<char>>, f: Seq<char>)
    requires
        has_flag(b, f),
    ensures
        has_flag(a + b, f),
{
    let i = choose|i: int| 0 <= i < b.len() && b[i] == f;
    assert((a + b)[a.len() + i] == f);
}

pub proof fn lemma_pair_concat_l(a: Seq<Seq<char>>, b: Seq<Seq<char>>, k: Seq<char>, v: Seq<char>)
    requires
        has_pair(a, k, v),
    ensures
        has_pair(a + b, k, v),
{
    let i = choose|i: int| 0 <= i && i + 1 < a.len() && #[trigger] a[i] == k && a[i + 1] == v;
    assert((a + b)[i] == k && (a + b)[i + 1] == v);
}

pub proof fn lemma_pair_concat_r(a: Seq<Seq<char>>, b: Seq<Seq<char>>, k: Seq<char>, v: Seq<char>)
    requires
        has_pair(b, k, v),
    ensures
        has_pair(a + b, k, v),
{
    let i = choose|i: int| 0 <= i && i + 1 < b.len() && #[trigger] b[i] == k && b[i + 1] == v;
    assert((a + b)[a.len() + i] == k && (a + b)[a.len() + i + 1] == v);
}

/// Plain mirroring with no OTG toggles and no codec override always selects
/// the default codec, and carries the device-selector pair when a device
/// identifier is given.
pub proof fn lemma_mirror_defaults(
    c: ConfigView,
    fallback: Option<Seq<char>>,
    ts: Seq<char>,
    sep: char,
)
    requires
        c.session_mode == "mirror"@,
        !flag_set(c.otg_enabled) || !flag_set(c.otg_pure),
        c.codec is None,
    ensures
        has_flag(arg_list(c, fallback, ts, sep), "--video-codec=h264"@),
        c.device.len() > 0 ==> has_pair(arg_list(c, fallback, ts, sep), "-s"@, c.device),
{
    reveal_strlit("--video-codec=");
    reveal_strlit("h264");
    reveal_strlit("--video-codec=h264");
    assert("--video-codec="@ + "h264"@ =~= "--video-codec=h264"@);
    let a = arg_list(c, fallback, ts, sep);
    assert(codec_args(c)[0] == "--video-codec=h264"@);
    assert(has_flag(codec_args(c), "--video-codec=h264"@));
    lemma_flag_concat_r(device_args(c), codec_args(c), "--video-codec=h264"@);
    lemma_flag_concat_l(
        device_args(c) + codec_args(c),
        if otg_pure_active(c) {
            otg_args(c)
        } else {
            normal_args(c, fallback, ts, sep)
        },
        "--video-codec=h264"@,
    );
    if c.device.len() > 0 {
        lemma_pair_concat_l(device_args(c), codec_args(c), "-s"@, c.device);
        lemma_pair_concat_l(
            device_args(c) + codec_args(c),
            if otg_pure_active(c) {
                otg_args(c)
            } else {
                normal_args(c, fallback, ts, sep)
            },
            "-s"@,
            c.device,
        );
    }
}

/// Camera mode always selects the camera video source; with no usable
/// explicit camera id, a requested front facing is emitted as its flag.
pub proof fn lemma_camera_flags(
    c: ConfigView,
    fallback: Option<Seq<char>>,
    ts: Seq<char>,
    sep: char,
)
    requires
        c.session_mode == "camera"@,
    ensures
        has_flag(arg_list(c, fallback, ts, sep), "--video-source=camera"@),
        (match c.camera_id {
            Some(cid) => cid.len() == 0,
            None => true,
        }) && c.camera_facing == Some("front"@) ==> has_flag(
            arg_list(c, fallback, ts, sep),
            "--camera-facing=front"@,
        ),
{
    reveal_strlit("camera");
    reveal_strlit("mirror");
    assert("camera"@[0] == 'c' && "mirror"@[0] == 'm');
    assert(c.session_mode != "mirror"@);
    assert(!otg_pure_active(c));
    let m = mode_args(c);
    assert(m == camera_args(c));
    assert(camera_args(c)[0] == "--video-source=camera"@);
    assert(has_flag(camera_args(c), "--video-source=camera"@));
    let pre = bitrate_args(c) + window_args(c) + rotation_args(c) + control_args(c);
    lemma_flag_concat_r(pre, mode_args(c), "--video-source=camera"@);
    lemma_flag_concat_l(pre + mode_args(c), fps_args(c), "--video-source=camera"@);
    lemma_flag_concat_l(pre + mode_args(c) + fps_args(c), res_args(c), "--video-source=camera"@);
    lemma_flag_concat_l(
        pre + mode_args(c) + fps_args(c) + res_args(c),
        record_args(c, fallback, ts, sep),
        "--video-source=camera"@,
    );
    assert(has_flag(normal_args(c, fallback, ts, sep), "--video-source=camera"@));
    lemma_flag_concat_r(
        device_args(c) + codec_args(c),
        normal_args(c, fallback, ts, sep),
        "--video-source=camera"@,
    );
    if (match c.camera_id {
        Some(cid) => cid.len() == 0,
        None => true,
    }) && c.camera_facing == Some("front"@) {
        reveal_strlit("--camera-facing=");
        reveal_strlit("front");
        reveal_strlit("--camera-facing=front");
        assert("--camera-facing="@ + "front"@ =~= "--camera-facing=front"@);
        assert(camera_select_args(c) =~= seq!["--camera-facing=front"@]);
        assert(camera_select_args(c)[0] == "--camera-facing=front"@);
        assert(has_flag(camera_select_args(c), "--camera-facing=front"@));
        lemma_flag_concat_r(
            seq!["--video-source=camera"@],
            camera_select_args(c),
            "--camera-facing=front"@,
        );
        lemma_flag_concat_l(
            seq!["--video-source=camera"@] + camera_select_args(c),
            camera_ar_args(c),
            "--camera-facing=front"@,
        );
        lemma_flag_concat_l(
            seq!["--video-source=camera"@] + camera_select_args(c) + camera_ar_args(c),
            if flag_set(c.camera_high_speed) {
                seq!["--camera-high-speed"@]
            } else {
                Seq::empty()
            },
            "--camera-facing=front"@,
        );
        assert(has_flag(camera_args(c), "--camera-facing=front"@));
        lemma_flag_concat_r(pre, mode_args(c), "--camera-facing=front"@);
        lemma_flag_concat_l(pre + mode_args(c), fps_args(c), "--camera-facing=front"@);
        lemma_flag_concat_l(
            pre + mode_args(c) + fps_args(c),
            res_args(c),
            "--camera-facing=front"@,
        );
        lemma_flag_concat_l(
            pre + mode_args(c) + fps_args(c) + res_args(c),
            record_args(c, fallback, ts, sep),
            "--camera-facing=front"@,
        );
        lemma_flag_concat_r(
            device_args(c) + codec_args(c),
            normal_args(c, fallback, ts, sep),
            "--camera-facing=front"@,
        );
    }
}

/// A requested bitrate is always emitted as the flag immediately followed by
/// the value with its `M` suffix. The OTG pass-through branch is the one
/// exception: it suppresses video entirely.
pub proof fn lemma_bitrate_pair(
    c: ConfigView,
    fallback: Option<Seq<char>>,
    ts: Seq<char>,
    sep: char,
    n: u32,
)
    requires
        c.bitrate == Some(n),
        !otg_pure_active(c),
    ensures
        has_pair(arg_list(c, fallback, ts, sep), "--video-bit-rate"@, spec_dec(n as int) + "M"@),
{
    let k = "--video-bit-rate"@;
    let v = spec_dec(n as int) + "M"@;
    assert(bitrate_args(c)[0] == k && bitrate_args(c)[1] == v);
    assert(has_pair(bitrate_args(c), k, v));
    lemma_pair_concat_l(bitrate_args(c), window_args(c), k, v);
    lemma_pair_concat_l(bitrate_args(c) + window_args(c), rotation_args(c), k, v);
    lemma_pair_concat_l(bitrate_args(c) + window_args(c) + rotation_args(c), control_args(c), k, v);
    lemma_pair_concat_l(
        bitrate_args(c) + window_args(c) + rotation_args(c) + control_args(c),
        mode_args(c),
        k,
        v,
    );
    lemma_pair_concat_l(
        bitrate_args(c) + window_args(c) + rotation_args(c) + control_args(c) + mode_args(c),
        fps_args(c),
        k,
        v,
    );
    lemma_pair_concat_l(
        bitrate_args(c) + window_args(c) + rotation_args(c) + control_args(c) + mode_args(c)
            + fps_args(c),
        res_args(c),
        k,
        v,
    );
    lemma_pair_concat_l(
        bitrate_args(c) + window_args(c) + rotation_args(c) + control_args(c) + mode_args(c)
            + fps_args(c) + res_args(c),
        record_args(c, fallback, ts, sep),
        k,
        v,
    );
    lemma_pair_concat_r(
        device_args(c) + codec_args(c),
        normal_args(c, fallback, ts, sep),
        k,
        v,
    );
}

/// A requested frame rate is always emitted as a flag-value pair, the flag
/// name depending on the mode. The OTG pass-through branch again excepted.
pub proof fn lemma_fps_pair(
    c: ConfigView,
    fallback: Option<Seq<char>>,
    ts: Seq<char>,
    sep: char,
    n: u32,
)
    requires
        c.fps == Some(n),
        !otg_pure_active(c),
    ensures
        c.session_mode != "camera"@ ==> has_pair(
            arg_list(c, fallback, ts, sep),
            "--max-fps"@,
            spec_dec(n as int),
        ),
        c.session_mode == "camera"@ ==> has_pair(
            arg_list(c, fallback, ts, sep),
            "--camera-fps"@,
            spec_dec(n as int),
        ),
{
    let k = if c.session_mode == "camera"@ {
        "--camera-fps"@
    } else {
        "--max-fps"@
    };
    let v = spec_dec(n as int);
    assert(fps_args(c)[0] == k && fps_args(c)[1] == v);
    assert(has_pair(fps_args(c), k, v));
    let pre = bitrate_args(c) + window_args(c) + rotation_args(c) + control_args(c) + mode_args(c);
    lemma_pair_concat_r(pre, fps_args(c), k, v);
    lemma_pair_concat_l(pre + fps_args(c), res_args(c), k, v);
    lemma_pair_concat_l(pre + fps_args(c) + res_args(c), record_args(c, fallback, ts, sep), k, v);
    lemma_pair_concat_r(device_args(c) + codec_args(c), normal_args(c, fallback, ts, sep), k, v);
}

/// OTG pass-through to a network-addressed device never emits `--otg`: the
/// unsupported shortcut is replaced by suppressing video and audio and
/// forwarding virtual keyboard and mouse.
pub proof fn lemma_otg_net(c: ConfigView, fallback: Option<Seq<char>>, ts: Seq<char>, sep: char)
    requires
        otg_pure_active(c),
        c.device.contains(':') || c.device.contains('.'),
    ensures
        has_flag(arg_list(c, fallback, ts, sep), "--no-video"@),
        has_flag(arg_list(c, fallback, ts, sep), "--no-audio"@),
        has_flag(arg_list(c, fallback, ts, sep), "--keyboard=uhid"@),
        has_flag(arg_list(c, fallback, ts, sep), "--mouse=uhid"@),
        !has_flag(arg_list(c, fallback, ts, sep), "--otg"@),
{
    reveal_strlit("--otg");
    reveal_strlit("--no-video");
    reveal_strlit("--no-audio");
    reveal_strlit("--keyboard=uhid");
    reveal_strlit("--mouse=uhid");
    reveal_strlit("-s");
    reveal_strlit("--video-codec=");
    let a = arg_list(c, fallback, ts, sep);
    let o = otg_args(c);
    assert(o[0] == "--no-video"@ && o[1] == "--no-audio"@ && o[2] == "--keyboard=uhid"@ && o[3]
        == "--mouse=uhid"@);
    lemma_flag_concat_r(device_args(c) + codec_args(c), o, "--no-video"@);
    lemma_flag_concat_r(device_args(c) + codec_args(c), o, "--no-audio"@);
    lemma_flag_concat_r(device_args(c) + codec_args(c), o, "--keyboard=uhid"@);
    lemma_flag_concat_r(device_args(c) + codec_args(c), o, "--mouse=uhid"@);
    // `--otg` appears nowhere: the device identifier holds a `.` or `:`,
    // which `--otg` does not, and every other element has another length.
    assert(!("--otg"@.contains(':')) && !("--otg"@.contains('.'))) by {
        assert(forall|i: int| 0 <= i < 5 ==> "--otg"@[i] != ':' && "--otg"@[i] != '.');
    }
    assert(c.device != "--otg"@);
    let ce = codec_args(c)[0];
    assert(ce.len() >= "--video-codec="@.len());
    assert(ce != "--otg"@);
    assert("--otg"@.len() == 5 && "--no-video"@.len() == 10 && "--no-audio"@.len() == 10
        && "--keyboard=uhid"@.len() == 15 && "--mouse=uhid"@.len() == 12);
    assert(o[0] != "--otg"@ && o[1] != "--otg"@ && o[2] != "--otg"@ && o[3] != "--otg"@);
    assert forall|i: int| 0 <= i < a.len() implies a[i] != "--otg"@ by {
        if c.device.len() > 0 {
            assert(a =~= seq!["-s"@, c.device, ce] + o);
            if i < 3 {
                assert(a[i] == seq!["-s"@, c.device, ce][i]);
            } else {
                assert(a[i] == o[i - 3]);
            }
        } else {
            assert(a =~= seq![ce] + o);
            if i < 1 {
                assert(a[i] == ce);
            } else {
                assert(a[i] == o[i - 1]);
            }
        }
    }
}

/// Relies on chrono::Local::now and DateTime::format: the current wall-clock
/// time rendered as `%Y%m%d_%H%M%S`; nothing is assumed of the result.
#[verifier::external_body]
fn local_timestamp() -> (r: String) {
    chrono::Local::now().format("%Y%m%d_%H%M%S").to_string()
}

/// Relies on std::path::MAIN_SEPARATOR: the platform's primary path
/// separator, `/` on Unix-like systems and `\` on Windows.
#[verifier::external_body]
fn path_separator() -> (c: char)
    ensures
        c == '/' || c == '\\',
{
    std::path::MAIN_SEPARATOR
}

/// The argument list does not depend on the timestamp or the separator
/// unless a recording was requested.
pub proof fn lemma_arg_list_no_record(
    c: ConfigView,
    fallback: Option<Seq<char>>,
    ts1: Seq<char>,
    sep1: char,
    ts2: Seq<char>,
    sep2: char,
)
    requires
        !flag_set(c.record),
    ensures
        arg_list(c, fallback, ts1, sep1) == arg_list(c, fallback, ts2, sep2),
{
    assert(record_args(c, fallback, ts1, sep1) == record_args(c, fallback, ts2, sep2));
}

/// Builds the argument list for one session: the timestamp embedded in a
/// recording file name comes from the wall clock, so the result is
/// `arg_list` for some timestamp; without a recording it is independent of
/// both the timestamp and the separator.
pub fn build_scrcpy_args(config: &ScrcpyConfig, video_dir_fallback: Option<String>) -> (r: Vec<
    String,
>)
    ensures
        exists|ts: Seq<char>, sep: char|
            (sep == '/' || sep == '\\') && views_of(r@) == #[trigger] arg_list(
                config@,
                opt_view(video_dir_fallback),
                ts,
                sep,
            ),
        !flag_set(config@.record) ==> views_of(r@) == arg_list(
            config@,
            opt_view(video_dir_fallback),
            Seq::empty(),
            '/',
        ),
{
    let ts = local_timestamp();
    let sep = path_separator();
    let r = build_scrcpy_args_with_timestamp(config, &video_dir_fallback, ts.as_str(), sep);
    proof {
        if !flag_set(config@.record) {
            lemma_arg_list_no_record(
                config@,
                opt_view(video_dir_fallback),
                ts@,
                sep,
                Seq::empty(),
                '/',
            );
        }
    }
    r
}

} // verus!
