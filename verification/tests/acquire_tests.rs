use scrcpy_core::acquire::{
    AssetEntry, DownloadProgress, HostArch, InstallPlan, fallback_asset, install_plan,
    platform_tags, select_asset, discovery_failure_message,
};
use scrcpy_core::registry::HostOs;

#[test]
fn platform_tags_cover_the_supported_hosts() {
    let t = platform_tags(HostOs::Windows, HostArch::X86_64).unwrap();
    assert_eq!((t.os_tag.as_str(), t.arch_tag.as_str(), t.extension.as_str()), ("win64", "win64", ".zip"));
    let t = platform_tags(HostOs::Windows, HostArch::X86).unwrap();
    assert_eq!(t.arch_tag, "win32");
    let t = platform_tags(HostOs::Linux, HostArch::X86_64).unwrap();
    assert_eq!((t.os_tag.as_str(), t.arch_tag.as_str(), t.extension.as_str()), ("linux", "linux-x86_64", ".tar.gz"));
    let t = platform_tags(HostOs::MacOs, HostArch::Aarch64).unwrap();
    assert_eq!(t.arch_tag, "macos-aarch64");
    let t = platform_tags(HostOs::MacOs, HostArch::X86_64).unwrap();
    assert_eq!(t.arch_tag, "macos-x86_64");
    let e = platform_tags(HostOs::Other, HostArch::X86_64).unwrap_err();
    assert_eq!(e, "Unsupported OS for auto-download");
}

fn asset(name: &str) -> AssetEntry {
    AssetEntry { name: name.to_string(), url: format!("https://example.invalid/{}", name) }
}

#[test]
fn first_matching_asset_is_selected() {
    let assets = vec![
        asset("scrcpy-server-v2.7"),
        asset("scrcpy-win32-v2.7.zip"),
        asset("scrcpy-win64-v2.7.zip"),
        asset("scrcpy-win64-v2.7.zip.sha256"),
    ];
    assert_eq!(select_asset(&assets, "win64", ".zip"), Some(2));
    assert_eq!(select_asset(&assets, "win32", ".zip"), Some(1));
    assert_eq!(select_asset(&assets, "linux-x86_64", ".tar.gz"), None);
}

#[test]
fn fallback_parses_the_redirect_tag() {
    let a = fallback_asset(
        "https://github.com/Genymobile/scrcpy/releases/tag/v2.7",
        "win64",
        ".zip",
    )
    .unwrap();
    assert_eq!(a.name, "scrcpy-win64-v2.7.zip");
    assert_eq!(
        a.url,
        "https://github.com/Genymobile/scrcpy/releases/download/v2.7/scrcpy-win64-v2.7.zip"
    );
}

#[test]
fn fallback_rejects_a_tagless_redirect() {
    assert!(fallback_asset("https://github.com/Genymobile/scrcpy/releases", "win64", ".zip").is_none());
    assert!(fallback_asset("", "win64", ".zip").is_none());
}

#[test]
fn progress_reports_whole_percent_steps() {
    let mut p = DownloadProgress::new(200);
    assert_eq!(p.step(50), Some(25));
    assert_eq!(p.step(100), Some(75));
    assert_eq!(p.step(50), Some(100));
    assert_eq!(p.step(50), Some(100));
}

#[test]
fn progress_stays_silent_without_a_total() {
    let mut p = DownloadProgress::new(0);
    assert_eq!(p.step(1024), None);
    assert_eq!(p.step(1024), None);
}

#[test]
fn install_dispatches_on_the_first_staged_entry() {
    assert!(matches!(install_plan(Some(true)), InstallPlan::MoveNestedRoot));
    assert!(matches!(install_plan(Some(false)), InstallPlan::MoveStagingWhole));
    assert!(matches!(install_plan(None), InstallPlan::NoEntries));
}

#[test]
fn discovery_failure_names_the_architecture() {
    assert_eq!(
        discovery_failure_message("win64"),
        "Could not find win64 binary. (API rate limit might be active)"
    );
}
