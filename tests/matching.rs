use aftman::asset::{choose_asset, compatible_assets, Architecture, Asset, Host, OperatingSystem, Release, Toolchain};
use aftman::installed::InstalledToolsCache;
use aftman::resolve::{find_release, installed_exact, resolve_id, resolve_spec, ExactResolution, Resolution};
use aftman::tool_id::ToolId;
use aftman::tool_spec::ToolSpec;
use aftman::version::Version;

fn host(os: OperatingSystem, arch: Architecture) -> Host {
    Host { os: Some(os), arch: Some(arch) }
}

fn release(version: &str, names: &[&str]) -> Release {
    Release {
        version: Version::parse(version).unwrap(),
        prerelease: false,
        assets: names.iter().map(|n| Asset::from_name_url(n, &format!("https://example.com/{}", n))).collect(),
    }
}

#[test]
fn classify_windows_x86_64() {
    let a = Asset::from_name_url("tool-windows-x86_64.zip", "u");
    assert_eq!(a.os, Some(OperatingSystem::Windows));
    assert_eq!(a.arch, Some(Architecture::X64));
    assert_eq!(a.toolchain, None);
    assert_eq!(a.name, "tool-windows-x86_64.zip");
    assert_eq!(a.url, "u");
}

#[test]
fn classify_x86_64_wherever_x86_appears() {
    for n in ["x86-tool-x86_64-linux.zip", "tool-linux-X86_64-x86.zip", "tool_x86_64.zip", "TOOL-AMD64.zip"] {
        assert_eq!(Asset::from_name_url(n, "").arch, Some(Architecture::X64), "{}", n);
    }
    assert_eq!(Asset::from_name_url("tool-linux-x86.zip", "").arch, Some(Architecture::X86));
    assert_eq!(Asset::from_name_url("tool-win32.zip", "").arch, Some(Architecture::X86));
    assert_eq!(Asset::from_name_url("tool-win32.zip", "").os, Some(OperatingSystem::Windows));
}

#[test]
fn classify_other_tokens() {
    let a = Asset::from_name_url("tool-aarch64-apple-macos.zip", "");
    assert_eq!((a.os, a.arch), (Some(OperatingSystem::MacOS), Some(Architecture::Arm64)));
    let b = Asset::from_name_url("tool-armv7-unknown-linux-gnueabihf.zip", "");
    assert_eq!((b.os, b.arch, b.toolchain), (Some(OperatingSystem::Linux), Some(Architecture::Arm32), Some(Toolchain::Gnu)));
    let c = Asset::from_name_url("tool-x86_64-pc-windows-msvc.zip", "");
    assert_eq!(c.toolchain, Some(Toolchain::Msvc));
    let d = Asset::from_name_url("tool-x86_64-unknown-linux-musl.zip", "");
    assert_eq!(d.toolchain, Some(Toolchain::Musl));
    let e = Asset::from_name_url("tool-osx.zip", "");
    assert_eq!((e.os, e.arch), (Some(OperatingSystem::MacOS), None));
    let f = Asset::from_name_url("tool.zip", "");
    assert_eq!((f.os, f.arch, f.toolchain), (None, None, None));
}

#[test]
fn compatibility_table() {
    let declared = |os, arch| Asset { name: String::new(), url: String::new(), os: Some(os), arch: Some(arch), toolchain: None };
    let hosts = [
        host(OperatingSystem::Windows, Architecture::X64), host(OperatingSystem::Windows, Architecture::X86), host(OperatingSystem::Windows, Architecture::Arm64),
        host(OperatingSystem::MacOS, Architecture::X64), host(OperatingSystem::MacOS, Architecture::X86), host(OperatingSystem::MacOS, Architecture::Arm64),
        host(OperatingSystem::Linux, Architecture::X64), host(OperatingSystem::Linux, Architecture::X86), host(OperatingSystem::Linux, Architecture::Arm64),
    ];
    let expect = |os, arch, h: &Host| -> bool {
        match (os, arch) {
            (OperatingSystem::Windows, Architecture::X64) => *h == host(OperatingSystem::Windows, Architecture::X64),
            (OperatingSystem::Windows, Architecture::X86) => *h == host(OperatingSystem::Windows, Architecture::X64) || *h == host(OperatingSystem::Windows, Architecture::X86),
            (OperatingSystem::MacOS, Architecture::Arm64) => *h == host(OperatingSystem::MacOS, Architecture::Arm64),
            (OperatingSystem::MacOS, Architecture::X64) => *h == host(OperatingSystem::MacOS, Architecture::Arm64) || *h == host(OperatingSystem::MacOS, Architecture::X64),
            (OperatingSystem::Linux, Architecture::X64) => *h == host(OperatingSystem::Linux, Architecture::X64),
            _ => false,
        }
    };
    for os in [OperatingSystem::Windows, OperatingSystem::MacOS, OperatingSystem::Linux] {
        for arch in [Architecture::X64, Architecture::X86, Architecture::Arm64] {
            for h in hosts.iter() {
                assert_eq!(declared(os, arch).compatible(h), expect(os, arch, h), "{:?} {:?} on {:?}", os, arch, h);
            }
        }
    }
}

#[test]
fn host_from_rust_names() {
    assert_eq!(Host::from_names("windows", "x86_64"), host(OperatingSystem::Windows, Architecture::X64));
    assert_eq!(Host::from_names("macos", "aarch64"), host(OperatingSystem::MacOS, Architecture::Arm64));
    assert_eq!(Host::from_names("linux", "x86"), host(OperatingSystem::Linux, Architecture::X86));
    assert_eq!(Host::from_names("freebsd", "riscv64"), Host { os: None, arch: None });
    assert!(OperatingSystem::Linux.compatible(&host(OperatingSystem::Linux, Architecture::X64)));
    assert!(!OperatingSystem::Windows.compatible(&host(OperatingSystem::Linux, Architecture::X64)));
}

#[test]
fn candidates_filter_by_os_then_platform() {
    let r = release("1.0.0", &["tool-linux-x86_64.zip", "tool-windows-x86_64.zip", "tool-macos-x86_64.zip", "tool-source.zip"]);
    let h = host(OperatingSystem::Windows, Architecture::X64);
    assert_eq!(compatible_assets(&r.assets, &h), vec![1]);
    assert_eq!(choose_asset(&r.assets, &h), Some(1));
    let unknown = release("1.0.0", &["tool-a.zip", "tool-b.zip"]);
    assert_eq!(compatible_assets(&unknown.assets, &h), vec![0, 1]);
    assert_eq!(choose_asset(&unknown.assets, &h), Some(0));
    let foreign = release("1.0.0", &["tool-linux-x86_64.zip"]);
    assert_eq!(choose_asset(&foreign.assets, &h), Some(0));
    let empty = release("1.0.0", &[]);
    assert_eq!(choose_asset(&empty.assets, &h), None);
    let os_only = release("1.0.0", &["tool-windows-arm64.zip", "tool-linux-x86_64.zip"]);
    assert_eq!(compatible_assets(&os_only.assets, &h), vec![0]);
}

#[test]
fn preference_by_arch_then_toolchain() {
    let r = release("1.0.0", &["tool-windows-x86.zip", "tool-windows-x86_64-gnu.zip", "tool-windows-x86_64-msvc.zip"]);
    let h = host(OperatingSystem::Windows, Architecture::X64);
    assert_eq!(compatible_assets(&r.assets, &h), vec![0, 1, 2]);
    assert_eq!(choose_asset(&r.assets, &h), Some(2));
}

#[test]
fn newest_compatible_release_wins() {
    let releases = vec![
        release("2.0.0", &["tool-windows-x86_64.zip"]),
        release("3.0.0", &[]),
        release("1.0.0", &["tool-windows-x86_64.zip"]),
    ];
    let spec = ToolSpec::parse("acme/tool").unwrap();
    let h = host(OperatingSystem::Windows, Architecture::X64);
    match resolve_spec(&spec, &releases, &InstalledToolsCache::new(), &h) {
        Resolution::Download { id, release, asset } => {
            assert_eq!(id.to_string(), "acme/tool@2.0.0");
            assert_eq!(release, 0);
            assert_eq!(asset, 0);
        }
        other => panic!("unexpected {:?}", other),
    }
}

#[test]
fn requested_version_is_respected() {
    let releases = vec![release("2.0.0", &["tool-windows-x86_64.zip"]), release("1.0.0", &["tool-windows-x86_64.zip"])];
    let spec = ToolSpec::parse("acme/tool@1.0.0").unwrap();
    let h = host(OperatingSystem::Windows, Architecture::X64);
    match resolve_spec(&spec, &releases, &InstalledToolsCache::new(), &h) {
        Resolution::Download { id, release, .. } => {
            assert_eq!(id.to_string(), "acme/tool@1.0.0");
            assert_eq!(release, 1);
        }
        other => panic!("unexpected {:?}", other),
    }
    let missing = ToolSpec::parse("acme/tool@5.0.0").unwrap();
    assert!(matches!(resolve_spec(&missing, &releases, &InstalledToolsCache::new(), &h), Resolution::NoCompatibleRelease));
}

#[test]
fn installed_release_needs_no_download() {
    let releases = vec![release("2.0.0", &["tool-linux-x86_64.zip"])];
    let mut installed = InstalledToolsCache::new();
    installed.add(ToolId::parse("acme/tool@2.0.0").unwrap());
    let spec = ToolSpec::parse("acme/tool").unwrap();
    let h = host(OperatingSystem::Windows, Architecture::X64);
    match resolve_spec(&spec, &releases, &installed, &h) {
        Resolution::Installed { id, release } => {
            assert_eq!(id.to_string(), "acme/tool@2.0.0");
            assert_eq!(release, 0);
        }
        other => panic!("unexpected {:?}", other),
    }
}

#[test]
fn installed_exact_id_short_circuits() {
    let mut installed = InstalledToolsCache::new();
    installed.add(ToolId::parse("acme/tool@1.2.3").unwrap());
    let exact = ToolSpec::parse("acme/tool@1.2.3").unwrap();
    assert_eq!(installed_exact(&exact, &installed).unwrap().to_string(), "acme/tool@1.2.3");
    assert!(installed_exact(&ToolSpec::parse("acme/tool").unwrap(), &installed).is_none());
    assert!(installed_exact(&ToolSpec::parse("acme/tool@1.2.4").unwrap(), &installed).is_none());
}

#[test]
fn no_release_at_all() {
    let spec = ToolSpec::parse("acme/tool").unwrap();
    let h = host(OperatingSystem::Linux, Architecture::X64);
    assert!(matches!(resolve_spec(&spec, &Vec::new(), &InstalledToolsCache::new(), &h), Resolution::NoCompatibleRelease));
}

#[test]
fn resolve_exact_id() {
    let releases = vec![release("2.0.0", &["tool-linux-x86_64.zip"]), release("1.0.0", &[])];
    let h = host(OperatingSystem::Linux, Architecture::X64);
    let v2 = ToolId::parse("acme/tool@2.0.0").unwrap();
    let v1 = ToolId::parse("acme/tool@1.0.0").unwrap();
    let v3 = ToolId::parse("acme/tool@3.0.0").unwrap();
    assert_eq!(resolve_id(&v2, &releases, &h), ExactResolution::Download { release: 0, asset: 0 });
    assert_eq!(resolve_id(&v1, &releases, &h), ExactResolution::NoCompatibleAsset { release: 1 });
    assert_eq!(resolve_id(&v3, &releases, &h), ExactResolution::ReleaseNotFound);
    assert_eq!(find_release(&releases, v1.version()), Some(1));
}
