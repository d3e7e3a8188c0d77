//! The pure part of locating FFmpeg builds: the per-platform manifest and
//! download URLs, and the parsing of the version manifests those URLs serve.
//! The network itself stays outside.

use vstd::prelude::*;
use vstd::string::*;
use crate::text::{
    find_sub_idx, scan_char_idx, trim_view, first_token_view, find_sub, scan_char, trim,
    first_token,
};

verus! {

/// The default directory name for unpacking a downloaded release archive.
pub const UNPACK_DIRNAME: &'static str = "ffmpeg_release_temp";

/// The operating system a build is selected for.
#[derive(Clone, Copy, Debug, PartialEq, Eq, Structural)]
pub enum TargetOs {
    Windows,
    Macos,
    Linux,
    Other,
}

/// The processor architecture a build is selected for.
#[derive(Clone, Copy, Debug, PartialEq, Eq, Structural)]
pub enum TargetArch {
    X86_64,
    Aarch64,
    Other,
}

/// URL of a manifest file naming the latest published build, per platform;
/// only x86-64 platforms have one.
pub fn ffmpeg_manifest_url(os: TargetOs, arch: TargetArch) -> (r: Result<&'static str, String>)
    ensures
        match r {
            Ok(u) => arch is X86_64 && match os {
                TargetOs::Windows => u@ == "https://www.gyan.dev/ffmpeg/builds/release-version"@,
                TargetOs::Macos => u@ == "https://evermeet.cx/ffmpeg/info/ffmpeg/release"@,
                TargetOs::Linux => u@ == "https://johnvansickle.com/ffmpeg/release-readme.txt"@,
                TargetOs::Other => false,
            },
            Err(e) => (!(arch is X86_64) || os is Other) && if !(arch is X86_64) {
                e@ == "Downloads must be manually provided for non-x86_64 architectures"@
            } else {
                e@ == "Unsupported platform"@
            },
        },
{
    if !matches!(arch, TargetArch::X86_64) {
        return Err(
            String::from_str("Downloads must be manually provided for non-x86_64 architectures"),
        );
    }
    match os {
        TargetOs::Windows => Ok("https://www.gyan.dev/ffmpeg/builds/release-version"),
        TargetOs::Macos => Ok("https://evermeet.cx/ffmpeg/info/ffmpeg/release"),
        TargetOs::Linux => Ok("https://johnvansickle.com/ffmpeg/release-readme.txt"),
        TargetOs::Other => Err(String::from_str("Unsupported platform")),
    }
}

/// URL of the latest published release archive, per platform.
pub fn ffmpeg_download_url(os: TargetOs, arch: TargetArch) -> (r: Result<&'static str, String>)
    ensures
        match r {
            Ok(u) => match (os, arch) {
                (TargetOs::Windows, TargetArch::X86_64) => u@
                    == "https://www.gyan.dev/ffmpeg/builds/ffmpeg-release-essentials.zip"@,
                (TargetOs::Linux, TargetArch::X86_64) => u@
                    == "https://johnvansickle.com/ffmpeg/releases/ffmpeg-release-amd64-static.tar.xz"@,
                (TargetOs::Macos, TargetArch::X86_64) => u@
                    == "https://evermeet.cx/ffmpeg/getrelease/zip"@,
                (TargetOs::Macos, TargetArch::Aarch64) => u@
                    == "https://www.osxexperts.net/ffmpeg7arm.zip"@,
                _ => false,
            },
            Err(_) => !((os is Windows && arch is X86_64) || (os is Linux && arch is X86_64) || (
            os is Macos && (arch is X86_64 || arch is Aarch64))),
        },
{
    match (os, arch) {
        (TargetOs::Windows, TargetArch::X86_64) => Ok(
            "https://www.gyan.dev/ffmpeg/builds/ffmpeg-release-essentials.zip",
        ),
        (TargetOs::Linux, TargetArch::X86_64) => Ok(
            "https://johnvansickle.com/ffmpeg/releases/ffmpeg-release-amd64-static.tar.xz",
        ),
        (TargetOs::Macos, TargetArch::X86_64) => Ok("https://evermeet.cx/ffmpeg/getrelease/zip"),
        (TargetOs::Macos, TargetArch::Aarch64) => Ok("https://www.osxexperts.net/ffmpeg7arm.zip"),
        _ => Err(
            String::from_str(
                "Unsupported platform; you can provide your own URL instead and call download_ffmpeg_package directly.",
            ),
        ),
    }
}

/// The version field of the JSON manifest the macOS build server publishes:
/// the text between the first pair of quotes after the first `"version":`.
pub open spec fn spec_parse_macos_version(s: Seq<char>) -> Option<Seq<char>> {
    match find_sub_idx(s, "\"version\":"@, 0) {
        Some(i) => {
            let rest = trim_view(s.subrange(i + "\"version\":"@.len(), s.len() as int));
            let a = scan_char_idx(rest, 0, '"');
            if a >= rest.len() {
                None
            } else {
                Some(rest.subrange(a + 1, scan_char_idx(rest, a + 1, '"')))
            }
        },
        None => None,
    }
}

pub fn parse_macos_version(version: &str) -> (r: Option<String>)
    ensures
        match r {
            Some(v) => spec_parse_macos_version(version@) == Some(v@),
            None => spec_parse_macos_version(version@) is None,
        },
{
    let n = version.unicode_len();
    match find_sub(version, "\"version\":", 0) {
        Some(i) => {
            let rest = trim(version.substring_char(i + "\"version\":".unicode_len(), n));
            let rn = rest.unicode_len();
            let a = scan_char(rest, 0, '"');
            if a >= rn {
                None
            } else {
                let b = scan_char(rest, a + 1, '"');
                Some(String::from_str(rest.substring_char(a + 1, b)))
            }
        },
        None => None,
    }
}

/// The version named by the plain-text manifest the Linux build server
/// publishes: the first whitespace token after the first `version:`.
pub open spec fn spec_parse_linux_version(s: Seq<char>) -> Option<Seq<char>> {
    match find_sub_idx(s, "version:"@, 0) {
        Some(i) => first_token_view(s.subrange(i + "version:"@.len(), s.len() as int)),
        None => None,
    }
}

pub fn parse_linux_version(version: &str) -> (r: Option<String>)
    ensures
        match r {
            Some(v) => spec_parse_linux_version(version@) == Some(v@),
            None => spec_parse_linux_version(version@) is None,
        },
{
    let n = version.unicode_len();
    match find_sub(version, "version:", 0) {
        Some(i) => match first_token(version.substring_char(i + "version:".unicode_len(), n)) {
            Some(tok) => Some(String::from_str(tok)),
            None => None,
        },
        None => None,
    }
}

/// What the latest-version check makes of the fetched manifest body, per
/// platform: Windows serves the bare version string, macOS a JSON document,
/// Linux a readme; other platforms have no manifest.
pub fn parse_version_manifest(os: TargetOs, manifest: &str) -> (r: Option<String>)
    ensures
        match os {
            TargetOs::Windows => r matches Some(v) && v@ == manifest@,
            TargetOs::Macos => match r {
                Some(v) => spec_parse_macos_version(manifest@) == Some(v@),
                None => spec_parse_macos_version(manifest@) is None,
            },
            TargetOs::Linux => match r {
                Some(v) => spec_parse_linux_version(manifest@) == Some(v@),
                None => spec_parse_linux_version(manifest@) is None,
            },
            TargetOs::Other => r is None,
        },
{
    match os {
        TargetOs::Windows => Some(String::from_str(manifest)),
        TargetOs::Macos => parse_macos_version(manifest),
        TargetOs::Linux => parse_linux_version(manifest),
        TargetOs::Other => None,
    }
}

} // verus!
