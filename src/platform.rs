//! Operating systems, architectures, and the release artifact that serves each pair.

use vstd::prelude::*;

verus! {

#[derive(Clone, Copy, Debug, PartialEq, Eq, Structural)]
pub enum Os {
    Mac,
    Linux,
    Windows,
}

#[derive(Clone, Copy, Debug, PartialEq, Eq, Structural)]
pub enum Architecture {
    Aarch64,
    X86,
    X8664,
}

/// How a release artifact is packed.
#[derive(Clone, Copy, Debug, PartialEq, Eq, Structural)]
pub enum ArchiveKind {
    GzipTar,
    Zip,
}

pub const MAC_ASSET: &'static str = "neocmakelsp-universal-apple-darwin.tar.gz";
pub const WINDOWS_AARCH64_ASSET: &'static str = "neocmakelsp-aarch64-pc-windows-msvc.zip";
pub const WINDOWS_X86_64_ASSET: &'static str = "neocmakelsp-x86_64-pc-windows-msvc.zip";
pub const LINUX_AARCH64_ASSET: &'static str = "neocmakelsp-aarch64-unknown-linux-gnu.tar.gz";
pub const LINUX_X86_64_ASSET: &'static str = "neocmakelsp-x86_64-unknown-linux-gnu.tar.gz";

/// The release artifact built for a platform, where there is one.
pub open spec fn asset_for(os: Os, arch: Architecture) -> Option<&'static str> {
    match (os, arch) {
        (Os::Mac, _) => Some(MAC_ASSET),
        (Os::Windows, Architecture::Aarch64) => Some(WINDOWS_AARCH64_ASSET),
        (Os::Windows, Architecture::X8664) => Some(WINDOWS_X86_64_ASSET),
        (Os::Linux, Architecture::Aarch64) => Some(LINUX_AARCH64_ASSET),
        (Os::Linux, Architecture::X8664) => Some(LINUX_X86_64_ASSET),
        _ => None,
    }
}

pub fn asset_name(os: Os, arch: Architecture) -> (r: Option<&'static str>)
    ensures
        r == asset_for(os, arch),
{
    match (os, arch) {
        (Os::Mac, _) => Some(MAC_ASSET),
        (Os::Windows, Architecture::Aarch64) => Some(WINDOWS_AARCH64_ASSET),
        (Os::Windows, Architecture::X8664) => Some(WINDOWS_X86_64_ASSET),
        (Os::Linux, Architecture::Aarch64) => Some(LINUX_AARCH64_ASSET),
        (Os::Linux, Architecture::X8664) => Some(LINUX_X86_64_ASSET),
        _ => None,
    }
}

pub open spec fn archive_kind_for(os: Os) -> ArchiveKind {
    match os {
        Os::Windows => ArchiveKind::Zip,
        _ => ArchiveKind::GzipTar,
    }
}

/// Windows artifacts are zip files; the others are gzipped tarballs.
pub fn archive_kind(os: Os) -> (r: ArchiveKind)
    ensures
        r == archive_kind_for(os),
{
    match os {
        Os::Windows => ArchiveKind::Zip,
        _ => ArchiveKind::GzipTar,
    }
}

pub open spec fn exe_suffix_for(os: Os) -> &'static str {
    match os {
        Os::Windows => ".exe",
        _ => "",
    }
}

/// What executables end with on `os`.
pub fn exe_suffix(os: Os) -> (r: &'static str)
    ensures
        r == exe_suffix_for(os),
{
    match os {
        Os::Windows => ".exe",
        _ => "",
    }
}

pub open spec fn os_label_of(os: Os) -> &'static str {
    match os {
        Os::Mac => "Mac",
        Os::Linux => "Linux",
        Os::Windows => "Windows",
    }
}

/// The name of `os` as messages show it.
pub fn os_label(os: Os) -> (r: &'static str)
    ensures
        r == os_label_of(os),
{
    match os {
        Os::Mac => "Mac",
        Os::Linux => "Linux",
        Os::Windows => "Windows",
    }
}

pub open spec fn arch_label_of(arch: Architecture) -> &'static str {
    match arch {
        Architecture::Aarch64 => "Aarch64",
        Architecture::X86 => "X86",
        Architecture::X8664 => "X8664",
    }
}

/// The name of `arch` as messages show it.
pub fn arch_label(arch: Architecture) -> (r: &'static str)
    ensures
        r == arch_label_of(arch),
{
    match arch {
        Architecture::Aarch64 => "Aarch64",
        Architecture::X86 => "X86",
        Architecture::X8664 => "X8664",
    }
}

} // verus!
