use vstd::prelude::*;

verus! {

/// The operating-system category a page variant targets.
///
/// Each variant maps to exactly one fixed, lowercase directory name inside a
/// `pages.<language>` directory of the cache tree.
#[derive(Debug, Clone, Copy, PartialEq, Eq, Structural)]
pub enum PlatformType {
    Linux,
    OsX,
    SunOs,
    Windows,
    Android,
    FreeBsd,
    NetBsd,
    OpenBsd,
    Common,
}

/// The fixed directory name of a platform, as a sequence of characters.
pub open spec fn platform_dir(p: PlatformType) -> Seq<char> {
    match p {
        PlatformType::Linux => "linux"@,
        PlatformType::OsX => "osx"@,
        PlatformType::SunOs => "sunos"@,
        PlatformType::Windows => "windows"@,
        PlatformType::Android => "android"@,
        PlatformType::FreeBsd => "freebsd"@,
        PlatformType::NetBsd => "netbsd"@,
        PlatformType::OpenBsd => "openbsd"@,
        PlatformType::Common => "common"@,
    }
}

impl PlatformType {
    /// The on-disk directory name holding this platform's pages.
    pub fn directory_name(&self) -> (r: &'static str)
        ensures
            r@ == platform_dir(*self),
    {
        match self {
            PlatformType::Linux => "linux",
            PlatformType::OsX => "osx",
            PlatformType::SunOs => "sunos",
            PlatformType::Windows => "windows",
            PlatformType::Android => "android",
            PlatformType::FreeBsd => "freebsd",
            PlatformType::NetBsd => "netbsd",
            PlatformType::OpenBsd => "openbsd",
            PlatformType::Common => "common",
        }
    }
}

} // verus!
