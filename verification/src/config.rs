//! The session configuration: an immutable value object describing one
//! mirroring or recording request, together with its mathematical view.
use vstd::prelude::*;

verus! {

/// One mirroring, camera or virtual-desktop request. The mode decides which
/// of the optional fields are meaningful; the others are ignored.
pub struct ScrcpyConfig {
    pub device: String,
    pub session_mode: String,
    pub bitrate: Option<u32>,
    pub fps: Option<u32>,
    pub stay_awake: Option<bool>,
    pub turn_off: Option<bool>,
    pub audio_enabled: Option<bool>,
    pub always_on_top: Option<bool>,
    pub fullscreen: Option<bool>,
    pub borderless: Option<bool>,
    pub record: Option<bool>,
    pub record_path: Option<String>,
    pub scrcpy_path: Option<String>,
    pub otg_enabled: Option<bool>,
    pub otg_pure: Option<bool>,
    pub camera_facing: Option<String>,
    pub camera_id: Option<String>,
    pub codec: Option<String>,
    pub camera_ar: Option<String>,
    pub camera_high_speed: Option<bool>,
    pub vd_width: Option<u32>,
    pub vd_height: Option<u32>,
    pub vd_dpi: Option<u32>,
    pub rotation: Option<String>,
    pub res: Option<String>,
}

/// The configuration with every string replaced by its character sequence.
pub ghost struct ConfigView {
    pub device: Seq<char>,
    pub session_mode: Seq<char>,
    pub bitrate: Option<u32>,
    pub fps: Option<u32>,
    pub stay_awake: Option<bool>,
    pub turn_off: Option<bool>,
    pub audio_enabled: Option<bool>,
    pub always_on_top: Option<bool>,
    pub fullscreen: Option<bool>,
    pub borderless: Option<bool>,
    pub record: Option<bool>,
    pub record_path: Option<Seq<char>>,
    pub scrcpy_path: Option<Seq<char>>,
    pub otg_enabled: Option<bool>,
    pub otg_pure: Option<bool>,
    pub camera_facing: Option<Seq<char>>,
    pub camera_id: Option<Seq<char>>,
    pub codec: Option<Seq<char>>,
    pub camera_ar: Option<Seq<char>>,
    pub camera_high_speed: Option<bool>,
    pub vd_width: Option<u32>,
    pub vd_height: Option<u32>,
    pub vd_dpi: Option<u32>,
    pub rotation: Option<Seq<char>>,
    pub res: Option<Seq<char>>,
}

/// View of an optional owned string.
pub open spec fn opt_view(o: Option<String>) -> Option<Seq<char>> {
    match o {
        Some(s) => Some(s@),
        None => None,
    }
}

impl View for ScrcpyConfig {
    type V = ConfigView;

    open spec fn view(&self) -> ConfigView {
        ConfigView {
            device: self.device@,
            session_mode: self.session_mode@,
            bitrate: self.bitrate,
            fps: self.fps,
            stay_awake: self.stay_awake,
            turn_off: self.turn_off,
            audio_enabled: self.audio_enabled,
            always_on_top: self.always_on_top,
            fullscreen: self.fullscreen,
            borderless: self.borderless,
            record: self.record,
            record_path: opt_view(self.record_path),
            scrcpy_path: opt_view(self.scrcpy_path),
            otg_enabled: self.otg_enabled,
            otg_pure: self.otg_pure,
            camera_facing: opt_view(self.camera_facing),
            camera_id: opt_view(self.camera_id),
            codec: opt_view(self.codec),
            camera_ar: opt_view(self.camera_ar),
            camera_high_speed: self.camera_high_speed,
            vd_width: self.vd_width,
            vd_height: self.vd_height,
            vd_dpi: self.vd_dpi,
            rotation: opt_view(self.rotation),
            res: opt_view(self.res),
        }
    }
}

} // verus!
