//! Release assets: what their file names say about the platform they are
//! built for, and which of them suit the host.

use vstd::prelude::*;

use crate::text::{chars_of, contains_lowered, contains_lowered_exec, str_eq};
use crate::version::Version;

verus! {

#[derive(Debug, Clone, Copy, PartialEq, Eq, PartialOrd, Ord, Hash, Structural)]
pub enum OperatingSystem {
    Windows,
    MacOS,
    Linux,
}

/// Processor architectures, in the order of preference among assets.
#[derive(Debug, Clone, Copy, PartialEq, Eq, PartialOrd, Ord, Hash, Structural)]
pub enum Architecture {
    Arm64,
    X64,
    X86,
    Arm32,
}

/// Toolchains, in the order of preference among assets.
#[derive(Debug, Clone, Copy, PartialEq, Eq, PartialOrd, Ord, Hash, Structural)]
pub enum Toolchain {
    Msvc,
    Gnu,
    Musl,
}

/// The platform this process runs on; `None` where it is none of the
/// known ones.
#[derive(Debug, Clone, Copy, PartialEq, Eq, Structural)]
pub struct Host {
    pub os: Option<OperatingSystem>,
    pub arch: Option<Architecture>,
}

/// The host that Rust's names for an operating system (`"windows"`,
/// `"macos"`, `"linux"`) and an architecture (`"x86_64"`, `"x86"`,
/// `"aarch64"`, `"arm"`) denote.
pub open spec fn host_from_names(os: Seq<char>, arch: Seq<char>) -> Host {
    Host {
        os: if os == "windows"@ {
            Some(OperatingSystem::Windows)
        } else if os == "macos"@ {
            Some(OperatingSystem::MacOS)
        } else if os == "linux"@ {
            Some(OperatingSystem::Linux)
        } else {
            None
        },
        arch: if arch == "x86_64"@ {
            Some(Architecture::X64)
        } else if arch == "x86"@ {
            Some(Architecture::X86)
        } else if arch == "aarch64"@ {
            Some(Architecture::Arm64)
        } else if arch == "arm"@ {
            Some(Architecture::Arm32)
        } else {
            None
        },
    }
}

impl Host {
    /// The host named by `std::env::consts::OS` and `ARCH`.
    pub fn from_names(os: &str, arch: &str) -> (r: Host)
        ensures
            r == host_from_names(os@, arch@),
    {
        let os = if str_eq(os, "windows") {
            Some(OperatingSystem::Windows)
        } else if str_eq(os, "macos") {
            Some(OperatingSystem::MacOS)
        } else if str_eq(os, "linux") {
            Some(OperatingSystem::Linux)
        } else {
            None
        };
        let arch = if str_eq(arch, "x86_64") {
            Some(Architecture::X64)
        } else if str_eq(arch, "x86") {
            Some(Architecture::X86)
        } else if str_eq(arch, "aarch64") {
            Some(Architecture::Arm64)
        } else if str_eq(arch, "arm") {
            Some(Architecture::Arm32)
        } else {
            None
        };
        Host { os, arch }
    }
}

/// Whether an asset declared for `os` and `arch` runs on `host`.
pub open spec fn pair_compatible(
    os: Option<OperatingSystem>,
    arch: Option<Architecture>,
    host: Host,
) -> bool {
    match (os, arch) {
        (Some(OperatingSystem::Windows), Some(Architecture::X64)) => host.os == Some(
            OperatingSystem::Windows,
        ) && host.arch == Some(Architecture::X64),
        (Some(OperatingSystem::Windows), Some(Architecture::X86)) => host.os == Some(
            OperatingSystem::Windows,
        ) && (host.arch == Some(Architecture::X64) || host.arch == Some(Architecture::X86)),
        (Some(OperatingSystem::MacOS), Some(Architecture::Arm64)) => host.os == Some(
            OperatingSystem::MacOS,
        ) && host.arch == Some(Architecture::Arm64),
        (Some(OperatingSystem::MacOS), Some(Architecture::X64)) => host.os == Some(
            OperatingSystem::MacOS,
        ) && (host.arch == Some(Architecture::Arm64) || host.arch == Some(Architecture::X64)),
        (Some(OperatingSystem::Linux), Some(Architecture::X64)) => host.os == Some(
            OperatingSystem::Linux,
        ) && host.arch == Some(Architecture::X64),
        _ => false,
    }
}

/// Whether an asset declared for `os` suits the host's operating system.
pub open spec fn os_compatible(os: Option<OperatingSystem>, host: Host) -> bool {
    match os {
        Some(o) => host.os == Some(o),
        None => false,
    }
}

impl OperatingSystem {
    /// Whether this is the host's operating system.
    pub fn compatible(&self, host: &Host) -> (r: bool)
        ensures
            r == (host.os == Some(*self)),
    {
        match host.os {
            Some(o) => o == *self,
            None => false,
        }
    }
}

/// One downloadable file of a release, with the platform its file name
/// suggests.
#[derive(Debug)]
pub struct Asset {
    pub name: String,
    pub url: String,
    pub os: Option<OperatingSystem>,
    pub arch: Option<Architecture>,
    pub toolchain: Option<Toolchain>,
}

/// The operating system a file name suggests.
pub open spec fn classify_os(n: Seq<char>) -> Option<OperatingSystem> {
    if contains_lowered(n, "windows"@) || contains_lowered(n, "win32"@) || contains_lowered(
        n,
        "win64"@,
    ) {
        Some(OperatingSystem::Windows)
    } else if contains_lowered(n, "macos"@) || contains_lowered(n, "osx"@) {
        Some(OperatingSystem::MacOS)
    } else if contains_lowered(n, "linux"@) || contains_lowered(n, "ubuntu"@) {
        Some(OperatingSystem::Linux)
    } else {
        None
    }
}

/// The architecture a file name suggests; the 64-bit x86 spellings are
/// looked for before the 32-bit ones they contain.
pub open spec fn classify_arch(n: Seq<char>) -> Option<Architecture> {
    if contains_lowered(n, "x86-64"@) || contains_lowered(n, "x86_64"@) || contains_lowered(
        n,
        "x64"@,
    ) || contains_lowered(n, "amd64"@) || contains_lowered(n, "win64"@) {
        Some(Architecture::X64)
    } else if contains_lowered(n, "x86"@) || contains_lowered(n, "i686"@) || contains_lowered(
        n,
        "win32"@,
    ) || contains_lowered(n, "i386"@) {
        Some(Architecture::X86)
    } else if contains_lowered(n, "aarch64"@) || contains_lowered(n, "arm64"@) {
        Some(Architecture::Arm64)
    } else if contains_lowered(n, "arm"@) || contains_lowered(n, "arm32"@) {
        Some(Architecture::Arm32)
    } else {
        None
    }
}

/// The toolchain a file name suggests.
pub open spec fn classify_toolchain(n: Seq<char>) -> Option<Toolchain> {
    if contains_lowered(n, "msvc"@) {
        Some(Toolchain::Msvc)
    } else if contains_lowered(n, "musl"@) {
        Some(Toolchain::Musl)
    } else if contains_lowered(n, "gnu"@) {
        Some(Toolchain::Gnu)
    } else {
        None
    }
}

/// A name that spells out 64-bit x86 is classed as X64, wherever a 32-bit
/// spelling also occurs in it.
pub proof fn lemma_x86_64_is_x64(n: Seq<char>)
    requires
        contains_lowered(n, "x86_64"@) || contains_lowered(n, "x86-64"@),
    ensures
        classify_arch(n) == Some(Architecture::X64),
{
}

impl Asset {
    /// Whether the asset's declared operating system and architecture run
    /// on `host`.
    pub fn compatible(&self, host: &Host) -> (r: bool)
        ensures
            r == pair_compatible(self.os, self.arch, *host),
    {
        let windows = host.os == Some(OperatingSystem::Windows);
        let macos = host.os == Some(OperatingSystem::MacOS);
        let linux = host.os == Some(OperatingSystem::Linux);
        let x64 = host.arch == Some(Architecture::X64);
        let x86 = host.arch == Some(Architecture::X86);
        let arm64 = host.arch == Some(Architecture::Arm64);
        match (self.os, self.arch) {
            (Some(OperatingSystem::Windows), Some(Architecture::X64)) => windows && x64,
            (Some(OperatingSystem::Windows), Some(Architecture::X86)) => windows && (x64 || x86),
            (Some(OperatingSystem::MacOS), Some(Architecture::Arm64)) => macos && arm64,
            (Some(OperatingSystem::MacOS), Some(Architecture::X64)) => macos && (arm64 || x64),
            (Some(OperatingSystem::Linux), Some(Architecture::X64)) => linux && x64,
            _ => false,
        }
    }

    /// Whether the asset's declared operating system is the host's.
    pub fn os_compatible(&self, host: &Host) -> (r: bool)
        ensures
            r == os_compatible(self.os, *host),
    {
        match self.os {
            Some(o) => o.compatible(host),
            None => false,
        }
    }

    /// An asset whose platform is read from its file name, ignoring case.
    pub fn from_name_url(name: &str, url: &str) -> (r: Asset)
        ensures
            r.name@ == name@,
            r.url@ == url@,
            r.os == classify_os(name@),
            r.arch == classify_arch(name@),
            r.toolchain == classify_toolchain(name@),
    {
        let n = chars_of(name);
        let os = if contains_lowered_exec(&n, "windows") || contains_lowered_exec(&n, "win32")
            || contains_lowered_exec(&n, "win64") {
            Some(OperatingSystem::Windows)
        } else if contains_lowered_exec(&n, "macos") || contains_lowered_exec(&n, "osx") {
            Some(OperatingSystem::MacOS)
        } else if contains_lowered_exec(&n, "linux") || contains_lowered_exec(&n, "ubuntu") {
            Some(OperatingSystem::Linux)
        } else {
            None
        };
        let arch = if contains_lowered_exec(&n, "x86-64") || contains_lowered_exec(&n, "x86_64")
            || contains_lowered_exec(&n, "x64") || contains_lowered_exec(&n, "amd64")
            || contains_lowered_exec(&n, "win64") {
            Some(Architecture::X64)
        } else if contains_lowered_exec(&n, "x86") || contains_lowered_exec(&n, "i686")
            || contains_lowered_exec(&n, "win32") || contains_lowered_exec(&n, "i386") {
            Some(Architecture::X86)
        } else if contains_lowered_exec(&n, "aarch64") || contains_lowered_exec(&n, "arm64") {
            Some(Architecture::Arm64)
        } else if contains_lowered_exec(&n, "arm") || contains_lowered_exec(&n, "arm32") {
            Some(Architecture::Arm32)
        } else {
            None
        };
        let toolchain = if contains_lowered_exec(&n, "msvc") {
            Some(Toolchain::Msvc)
        } else if contains_lowered_exec(&n, "musl") {
            Some(Toolchain::Musl)
        } else if contains_lowered_exec(&n, "gnu") {
            Some(Toolchain::Gnu)
        } else {
            None
        };
        Asset { name: name.to_owned(), url: url.to_owned(), os, arch, toolchain }
    }
}

/// Some asset declares an operating system the host has.
pub open spec fn any_os_known(assets: Seq<Asset>, host: Host) -> bool {
    exists|i: int| 0 <= i < assets.len() && os_compatible(#[trigger] assets[i].os, host)
}

/// Some asset declares an architecture, and its platform runs on the host.
pub open spec fn any_arch_known(assets: Seq<Asset>, host: Host) -> bool {
    exists|i: int|
        0 <= i < assets.len() && (#[trigger] assets[i]).arch is Some && pair_compatible(
            assets[i].os,
            assets[i].arch,
            host,
        )
}

/// Whether `a` stays among the candidates: once some asset names the host's
/// operating system, assets for other systems go; once some asset also
/// names a suitable architecture, assets whose platform does not run on the
/// host go too.
pub open spec fn survives(a: Asset, any_os: bool, any_arch: bool, host: Host) -> bool {
    &&& !(any_os && !os_compatible(a.os, host))
    &&& !(any_os && any_arch && !pair_compatible(a.os, a.arch, host))
}

/// The asset at `i` is a candidate for `host`.
pub open spec fn candidate(assets: Seq<Asset>, i: int, host: Host) -> bool {
    &&& 0 <= i < assets.len()
    &&& survives(assets[i], any_os_known(assets, host), any_arch_known(assets, host), host)
}

pub open spec fn arch_rank(a: Option<Architecture>) -> int {
    match a {
        None => 0,
        Some(Architecture::Arm64) => 1,
        Some(Architecture::X64) => 2,
        Some(Architecture::X86) => 3,
        Some(Architecture::Arm32) => 4,
    }
}

pub open spec fn toolchain_rank(t: Option<Toolchain>) -> int {
    match t {
        None => 0,
        Some(Toolchain::Msvc) => 1,
        Some(Toolchain::Gnu) => 2,
        Some(Toolchain::Musl) => 3,
    }
}

/// Preference among candidates: by architecture, then by toolchain; lower
/// is preferred.
pub open spec fn preference(a: Asset) -> int {
    arch_rank(a.arch) * 4 + toolchain_rank(a.toolchain)
}

/// `i` is the preferred candidate: none is preferred over it, and none
/// before it is as preferred.
pub open spec fn is_choice(assets: Seq<Asset>, i: int, host: Host) -> bool {
    &&& candidate(assets, i, host)
    &&& forall|j: int| #[trigger]
        candidate(assets, j, host) ==> preference(assets[i]) <= preference(assets[j])
    &&& forall|j: int|
        #![trigger candidate(assets, j, host)]
        0 <= j < i && candidate(assets, j, host) ==> preference(assets[j]) != preference(
            assets[i],
        )
}

fn preference_exec(a: &Asset) -> (r: u8)
    ensures
        r == preference(*a),
{
    let arch: u8 = match a.arch {
        None => 0,
        Some(Architecture::Arm64) => 1,
        Some(Architecture::X64) => 2,
        Some(Architecture::X86) => 3,
        Some(Architecture::Arm32) => 4,
    };
    let toolchain: u8 = match a.toolchain {
        None => 0,
        Some(Toolchain::Msvc) => 1,
        Some(Toolchain::Gnu) => 2,
        Some(Toolchain::Musl) => 3,
    };
    arch * 4 + toolchain
}

/// Whether some asset declares the host's operating system.
pub fn any_os_known_exec(assets: &Vec<Asset>, host: &Host) -> (r: bool)
    ensures
        r == any_os_known(assets@, *host),
{
    let mut i: usize = 0;
    while i < assets.len()
        invariant
            i <= assets@.len(),
            forall|k: int| 0 <= k < i ==> !os_compatible(#[trigger] assets@[k].os, *host),
        decreases assets@.len() - i,
    {
        if assets[i].os_compatible(host) {
            return true;
        }
        i = i + 1;
    }
    false
}

/// Whether some asset declares an architecture on a platform that runs on
/// the host.
pub fn any_arch_known_exec(assets: &Vec<Asset>, host: &Host) -> (r: bool)
    ensures
        r == any_arch_known(assets@, *host),
{
    let mut i: usize = 0;
    while i < assets.len()
        invariant
            i <= assets@.len(),
            forall|k: int|
                0 <= k < i ==> !((#[trigger] assets@[k]).arch is Some && pair_compatible(
                    assets@[k].os,
                    assets@[k].arch,
                    *host,
                )),
        decreases assets@.len() - i,
    {
        if assets[i].arch.is_some() && assets[i].compatible(host) {
            return true;
        }
        i = i + 1;
    }
    false
}

/// The positions of the candidates for `host`, in order.
pub fn compatible_assets(assets: &Vec<Asset>, host: &Host) -> (r: Vec<usize>)
    ensures
        forall|k: int| 0 <= k < r@.len() ==> candidate(assets@, #[trigger] r@[k] as int, *host),
        forall|a: int, b: int| 0 <= a < b < r@.len() ==> r@[a] < r@[b],
        forall|i: int| #[trigger] candidate(assets@, i, *host) ==> r@.contains(i as usize),
{
    let any_os = any_os_known_exec(assets, host);
    let any_arch = any_arch_known_exec(assets, host);
    let mut r: Vec<usize> = Vec::new();
    let mut i: usize = 0;
    while i < assets.len()
        invariant
            i <= assets@.len(),
            any_os == any_os_known(assets@, *host),
            any_arch == any_arch_known(assets@, *host),
            forall|k: int| 0 <= k < r@.len() ==> candidate(assets@, #[trigger] r@[k] as int, *host),
            forall|k: int| 0 <= k < r@.len() ==> #[trigger] r@[k] < i,
            forall|a: int, b: int| 0 <= a < b < r@.len() ==> r@[a] < r@[b],
            forall|j: int|
                0 <= j < i && #[trigger] candidate(assets@, j, *host) ==> r@.contains(j as usize),
        decreases assets@.len() - i,
    {
        let a = &assets[i];
        let keep = !(any_os && !a.os_compatible(host)) && !(any_os && any_arch && !a.compatible(
            host,
        ));
        let ghost old_r = r@;
        if keep {
            r.push(i);
            assert(r@[r@.len() - 1] == i);
        }
        assert forall|j: int|
            0 <= j < i + 1 && #[trigger] candidate(assets@, j, *host) implies r@.contains(
            j as usize,
        ) by {
            if j < i {
                let m = choose|m: int| 0 <= m < old_r.len() && old_r[m] == j as usize;
                assert(r@[m] == j as usize);
            } else {
                assert(r@[r@.len() - 1] == i);
            }
        }
        i = i + 1;
    }
    r
}

/// The preferred candidate for `host`: the least by architecture then
/// toolchain, the earliest among equals; `None` when no asset is a
/// candidate.
pub fn choose_asset(assets: &Vec<Asset>, host: &Host) -> (r: Option<usize>)
    ensures
        r is None <==> forall|i: int| !#[trigger] candidate(assets@, i, *host),
        r matches Some(i) ==> is_choice(assets@, i as int, *host),
{
    let total = assets.len();
    let candidates = compatible_assets(assets, host);
    let mut best: Option<usize> = None;
    let mut k: usize = 0;
    while k < candidates.len()
        invariant
            k <= candidates@.len(),
            forall|m: int|
                0 <= m < candidates@.len() ==> candidate(assets@, #[trigger] candidates@[m] as int, *host),
            forall|a: int, b: int| 0 <= a < b < candidates@.len() ==> candidates@[a] < candidates@[b],
            forall|i: int| #[trigger] candidate(assets@, i, *host) ==> candidates@.contains(i as usize),
            best is None <==> k == 0,
            best matches Some(b) ==> {
                &&& candidate(assets@, b as int, *host)
                &&& exists|m: int| 0 <= m < k && candidates@[m] == b
                &&& forall|m: int|
                    0 <= m < k ==> preference(assets@[b as int]) <= preference(
                        assets@[#[trigger] candidates@[m] as int],
                    )
                &&& forall|m: int|
                    0 <= m < k && candidates@[m] < b ==> preference(
                        assets@[#[trigger] candidates@[m] as int],
                    ) != preference(assets@[b as int])
            },
        decreases candidates@.len() - k,
    {
        let i = candidates[k];
        match best {
            None => {
                best = Some(i);
            },
            Some(b) => {
                if preference_exec(&assets[i]) < preference_exec(&assets[b]) {
                    best = Some(i);
                }
            },
        }
        k = k + 1;
    }
    match best {
        None => {
            assert forall|i: int| !#[trigger] candidate(assets@, i, *host) by {
                if candidate(assets@, i, *host) {
                    assert(candidates@.contains(i as usize));
                }
            }
        },
        Some(b) => {
            assert forall|j: int| #[trigger]
                candidate(assets@, j, *host) implies preference(assets@[b as int]) <= preference(
                assets@[j],
            ) by {
                assert(candidates@.contains(j as usize));
                let m = choose|m: int| 0 <= m < candidates@.len() && candidates@[m] == j as usize;
                assert(j < total);
                assert(candidates@[m] as int == j);
                assert(preference(assets@[b as int]) <= preference(
                    assets@[candidates@[m] as int],
                ));
            }
            assert forall|j: int|
                #![trigger candidate(assets@, j, *host)]
                0 <= j < b && candidate(assets@, j, *host) implies preference(assets@[j])
                != preference(assets@[b as int]) by {
                assert(candidates@.contains(j as usize));
                let m = choose|m: int| 0 <= m < candidates@.len() && candidates@[m] == j as usize;
                assert(preference(assets@[candidates@[m] as int]) != preference(
                    assets@[b as int],
                ));
            }
        },
    }
    best
}

/// The compatibility table over every declared pair of the three systems and
/// three architectures: which hosts each one runs on.
pub proof fn lemma_compatibility_table(host: Host)
    ensures
        pair_compatible(Some(OperatingSystem::Windows), Some(Architecture::X64), host) <==> host
            == (Host { os: Some(OperatingSystem::Windows), arch: Some(Architecture::X64) }),
        pair_compatible(Some(OperatingSystem::Windows), Some(Architecture::X86), host) <==> host
            == (Host { os: Some(OperatingSystem::Windows), arch: Some(Architecture::X64) })
            || host == (Host { os: Some(OperatingSystem::Windows), arch: Some(Architecture::X86) }),
        !pair_compatible(Some(OperatingSystem::Windows), Some(Architecture::Arm64), host),
        pair_compatible(Some(OperatingSystem::MacOS), Some(Architecture::Arm64), host) <==> host
            == (Host { os: Some(OperatingSystem::MacOS), arch: Some(Architecture::Arm64) }),
        pair_compatible(Some(OperatingSystem::MacOS), Some(Architecture::X64), host) <==> host
            == (Host { os: Some(OperatingSystem::MacOS), arch: Some(Architecture::Arm64) })
            || host == (Host { os: Some(OperatingSystem::MacOS), arch: Some(Architecture::X64) }),
        !pair_compatible(Some(OperatingSystem::MacOS), Some(Architecture::X86), host),
        pair_compatible(Some(OperatingSystem::Linux), Some(Architecture::X64), host) <==> host
            == (Host { os: Some(OperatingSystem::Linux), arch: Some(Architecture::X64) }),
        !pair_compatible(Some(OperatingSystem::Linux), Some(Architecture::X86), host),
        !pair_compatible(Some(OperatingSystem::Linux), Some(Architecture::Arm64), host),
{
}

impl Clone for Asset {
    fn clone(&self) -> (r: Self)
        ensures
            r == *self,
    {
        Asset {
            name: self.name.clone(),
            url: self.url.clone(),
            os: self.os,
            arch: self.arch,
            toolchain: self.toolchain,
        }
    }
}

/// One published version of a tool and its assets.
#[derive(Debug)]
pub struct Release {
    pub version: Version,
    pub prerelease: bool,
    pub assets: Vec<Asset>,
}

} // verus!
