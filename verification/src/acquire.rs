//! The acquisition pipeline's decisions: platform detection, release-asset
//! selection, the redirect fallback that synthesizes a download URL from a
//! version tag, download progress accounting, and the install move. The
//! network and filesystem work around these stays in the runtime layer.
use vstd::prelude::*;
use crate::registry::HostOs;
use crate::text::{
    views_of, spec_contains_str, spec_ends_with, spec_split, contains_str, ends_with_str,
    split_char, lemma_split_nonempty,
};

verus! {

/// The host processor family, detected once by the runtime layer.
pub enum HostArch {
    X86,
    X86_64,
    Aarch64,
    Other,
}

/// The distribution naming tags for one platform: a platform tag, an
/// architecture tag, and the archive extension.
#[derive(Debug)]
pub struct PlatformTags {
    pub os_tag: String,
    pub arch_tag: String,
    pub extension: String,
}

/// The supported platform combinations and their tags; unsupported hosts
/// yield nothing and abort the pipeline.
pub open spec fn spec_platform_tags(os: HostOs, arch: HostArch) -> Option<
    (Seq<char>, Seq<char>, Seq<char>),
> {
    match os {
        HostOs::Windows => if arch is X86_64 {
            Some(("win64"@, "win64"@, ".zip"@))
        } else {
            Some(("win32"@, "win32"@, ".zip"@))
        },
        HostOs::Linux => Some(("linux"@, "linux-x86_64"@, ".tar.gz"@)),
        HostOs::MacOs => if arch is Aarch64 {
            Some(("macos"@, "macos-aarch64"@, ".tar.gz"@))
        } else {
            Some(("macos"@, "macos-x86_64"@, ".tar.gz"@))
        },
        HostOs::Other => None,
    }
}

pub fn platform_tags(os: HostOs, arch: HostArch) -> (r: Result<PlatformTags, String>)
    ensures
        match r {
            Ok(t) => spec_platform_tags(os, arch) == Some((t.os_tag@, t.arch_tag@, t.extension@)),
            Err(e) => spec_platform_tags(os, arch) is None && e@
                == "Unsupported OS for auto-download"@,
        },
{
    match os {
        HostOs::Windows => {
            let arch_tag = if matches!(arch, HostArch::X86_64) {
                String::from_str("win64")
            } else {
                String::from_str("win32")
            };
            Ok(
                PlatformTags {
                    os_tag: arch_tag.clone(),
                    arch_tag,
                    extension: String::from_str(".zip"),
                },
            )
        },
        HostOs::Linux => Ok(
            PlatformTags {
                os_tag: String::from_str("linux"),
                arch_tag: String::from_str("linux-x86_64"),
                extension: String::from_str(".tar.gz"),
            },
        ),
        HostOs::MacOs => {
            let arch_tag = if matches!(arch, HostArch::Aarch64) {
                String::from_str("macos-aarch64")
            } else {
                String::from_str("macos-x86_64")
            };
            Ok(
                PlatformTags {
                    os_tag: String::from_str("macos"),
                    arch_tag,
                    extension: String::from_str(".tar.gz"),
                },
            )
        },
        HostOs::Other => Err(String::from_str("Unsupported OS for auto-download")),
    }
}

/// One release asset as the listing endpoint describes it.
pub struct AssetEntry {
    pub name: String,
    pub url: String,
}

/// An asset fits when its name carries the architecture tag and ends in the
/// expected archive extension.
pub open spec fn asset_matches(name: Seq<char>, arch_tag: Seq<char>, ext: Seq<char>) -> bool {
    spec_contains_str(name, arch_tag) && spec_ends_with(name, ext)
}

/// The first fitting asset of the release listing, scanned in order.
pub fn select_asset(assets: &Vec<AssetEntry>, arch_tag: &str, extension: &str) -> (r: Option<
    usize,
>)
    ensures
        match r {
            Some(i) => i < assets@.len() && asset_matches(assets@[i as int].name@, arch_tag@, extension@)
                && forall|j: int|
                0 <= j < i ==> !asset_matches(#[trigger] assets@[j].name@, arch_tag@, extension@),
            None => forall|j: int|
                0 <= j < assets@.len() ==> !asset_matches(
                    #[trigger] assets@[j].name@,
                    arch_tag@,
                    extension@,
                ),
        },
{
    let n = assets.len();
    let mut i: usize = 0;
    while i < n
        invariant
            n == assets@.len(),
            i <= n,
            forall|j: int|
                0 <= j < i ==> !asset_matches(#[trigger] assets@[j].name@, arch_tag@, extension@),
        decreases n - i,
    {
        let name = &assets[i].name;
        if contains_str(name.as_str(), arch_tag) && ends_with_str(name.as_str(), extension) {
            return Some(i);
        }
        i += 1;
    }
    None
}

/// The trailing path segment of a URL: the last piece between slashes.
pub open spec fn spec_last_segment(u: Seq<char>) -> Seq<char> {
    spec_split(u, '/').last()
}

/// The version tag that the release redirect reveals, when the trailing
/// segment looks like one.
pub open spec fn spec_redirect_tag(u: Seq<char>) -> Option<Seq<char>> {
    let tag = spec_last_segment(u);
    if tag.len() > 0 && tag[0] == 'v' {
        Some(tag)
    } else {
        None
    }
}

/// The synthesized asset name for a tag, by the known naming convention.
pub open spec fn spec_fallback_name(arch_tag: Seq<char>, tag: Seq<char>, ext: Seq<char>) -> Seq<
    char,
> {
    "scrcpy-"@ + arch_tag + "-"@ + tag + ext
}

/// The synthesized download URL for a tag and asset name.
pub open spec fn spec_fallback_url(tag: Seq<char>, name: Seq<char>) -> Seq<char> {
    "https://github.com/Genymobile/scrcpy/releases/download/"@ + tag + "/"@ + name
}

/// Parses the redirect URL that the release-listing fallback follows and
/// synthesizes the asset name and download URL from its version tag.
pub fn fallback_asset(final_url: &str, arch_tag: &str, extension: &str) -> (r: Option<AssetEntry>)
    ensures
        match r {
            Some(a) => spec_redirect_tag(final_url@) matches Some(tag) && a.name@
                == spec_fallback_name(arch_tag@, tag, extension@) && a.url@ == spec_fallback_url(
                tag,
                a.name@,
            ),
            None => spec_redirect_tag(final_url@) is None,
        },
{
    let pieces = split_char(final_url, '/');
    proof {
        lemma_split_nonempty(final_url@, '/');
        assert(views_of(pieces@).len() == spec_split(final_url@, '/').len());
    }
    let tag = &pieces[pieces.len() - 1];
    proof {
        assert(tag@ == spec_last_segment(final_url@));
    }
    let tlen = tag.as_str().unicode_len();
    if tlen > 0 && tag.as_str().get_char(0) == 'v' {
        let mut name = String::from_str("scrcpy-");
        name.append(arch_tag);
        name.append("-");
        name.append(tag.as_str());
        name.append(extension);
        let mut url = String::from_str("https://github.com/Genymobile/scrcpy/releases/download/");
        url.append(tag.as_str());
        url.append("/");
        url.append(name.as_str());
        Some(AssetEntry { name, url })
    } else {
        None
    }
}

/// Download progress accounting: cumulative bytes against the declared
/// total, clamped so that the fraction never passes the whole.
pub struct DownloadProgress {
    pub downloaded: u64,
    pub total: u64,
}

impl DownloadProgress {
    /// With a declared total, the cumulative count never passes it.
    pub open spec fn wf(&self) -> bool {
        self.total > 0 ==> self.downloaded <= self.total
    }

    pub fn new(total: u64) -> (r: Self)
        ensures
            r.wf(),
            r.downloaded == 0,
            r.total == total,
    {
        DownloadProgress { downloaded: 0, total }
    }

    /// Accounts one received chunk and yields the whole-percent progress to
    /// emit, or nothing while the total length is unknown.
    pub fn step(&mut self, chunk: usize) -> (p: Option<u64>)
        requires
            old(self).wf(),
        ensures
            final(self).wf(),
            final(self).total == old(self).total,
            final(self).downloaded == if old(self).total > 0 {
                if old(self).downloaded + chunk <= old(self).total {
                    (old(self).downloaded + chunk) as u64
                } else {
                    old(self).total
                }
            } else {
                if old(self).downloaded + chunk <= u64::MAX {
                    (old(self).downloaded + chunk) as u64
                } else {
                    u64::MAX
                }
            },
            p == if old(self).total > 0 {
                Some((final(self).downloaded as int * 100 / final(self).total as int) as u64)
            } else {
                None::<u64>
            },
    {
        let c = chunk as u64;
        let limit = if self.total > 0 {
            self.total
        } else {
            u64::MAX
        };
        if c <= limit - self.downloaded {
            self.downloaded = self.downloaded + c;
        } else {
            self.downloaded = limit;
        }
        if self.total > 0 {
            let d = self.downloaded;
            let t = self.total;
            assert(d as int * 100 / t as int <= 100) by (nonlinear_arith)
                requires
                    0 < t,
                    d <= t,
            {}
            let pct = ((d as u128 * 100) / (t as u128)) as u64;
            assert(pct == d as int * 100 / t as int);
            Some(pct)
        } else {
            None
        }
    }
}

/// What the install stage does with the staging directory, decided by its
/// first entry: an archive with a single nested root directory is moved into
/// place as the installation; loose files make the whole staging directory
/// the installation; an empty staging directory installs nothing.
pub enum InstallPlan {
    MoveNestedRoot,
    MoveStagingWhole,
    NoEntries,
}

pub open spec fn spec_install_plan(first_entry_is_dir: Option<bool>) -> InstallPlan {
    match first_entry_is_dir {
        Some(true) => InstallPlan::MoveNestedRoot,
        Some(false) => InstallPlan::MoveStagingWhole,
        None => InstallPlan::NoEntries,
    }
}

pub fn install_plan(first_entry_is_dir: Option<bool>) -> (r: InstallPlan)
    ensures
        r == spec_install_plan(first_entry_is_dir),
{
    match first_entry_is_dir {
        Some(true) => InstallPlan::MoveNestedRoot,
        Some(false) => InstallPlan::MoveStagingWhole,
        None => InstallPlan::NoEntries,
    }
}

/// The message that aborts asset discovery when both strategies fail.
pub fn discovery_failure_message(arch_tag: &str) -> (r: String)
    ensures
        r@ == "Could not find "@ + arch_tag@ + " binary. (API rate limit might be active)"@,
{
    let mut s = String::from_str("Could not find ");
    s.append(arch_tag);
    s.append(" binary. (API rate limit might be active)");
    s
}

} // verus!
