use std::io::Write;

use aftman::archive::{choose_entry, extract_executable, ArchiveError};
use aftman::dispatch::{exit_code, strip_exe_suffix, unbound_alias_message, Role, RunEnd};
use aftman::listing::{release_from_listing, releases_from_listing, GitHubRelease, GitHubReleaseAsset};
use aftman::manifest::{collect_discovered, edit_manifest_text, find_tool, nearest_manifest, search_dirs, Manifest, ManifestError};
use aftman::profile::{profile_addition, source_line};
use aftman::storage::{default_alias, exe_path_parts, executable_name, link_name};
use aftman::tool_alias::ToolAlias;
use aftman::tool_id::ToolId;
use aftman::tool_spec::ToolSpec;

fn manifest(entries: &[(&str, &str)], path: &str) -> Manifest {
    let entries: Vec<(String, String)> = entries.iter().map(|(a, i)| (a.to_string(), i.to_string())).collect();
    Manifest::from_entries(&entries, Some(path.to_string())).expect("valid manifest")
}

#[test]
fn manifest_entries_are_checked() {
    let m = manifest(&[("rojo", "rojo-rbx/rojo@7.2.1")], "/p/aftman.toml");
    assert_eq!(m.get("rojo").unwrap().to_string(), "rojo-rbx/rojo@7.2.1");
    assert!(m.get("selene").is_none());
    let bad = vec![("rojo".to_string(), "rojo-rbx/rojo".to_string())];
    match Manifest::from_entries(&bad, Some("/p/aftman.toml".to_string())) {
        Err(ManifestError::InvalidEntry { path, error }) => {
            assert_eq!(path.as_deref(), Some("/p/aftman.toml"));
            assert!(error.message().to_lowercase().contains("version is missing"));
        }
        other => panic!("unexpected {:?}", other),
    }
}

#[test]
fn search_dirs_walk_up_to_the_root() {
    let cwd = vec!["home".to_string(), "me".to_string(), "proj".to_string()];
    let dirs = search_dirs(&cwd);
    assert_eq!(dirs.len(), 4);
    assert_eq!(dirs[0], cwd);
    assert_eq!(dirs[1], vec!["home".to_string(), "me".to_string()]);
    assert_eq!(dirs[3], Vec::<String>::new());
}

#[test]
fn discovery_is_innermost_first_global_last() {
    let inner = manifest(&[("tool", "a/inner@1.0.0")], "/a/b/aftman.toml");
    let outer = manifest(&[("tool", "a/outer@1.0.0"), ("other", "a/other@1.0.0")], "/a/aftman.toml");
    let global = manifest(&[("tool", "a/global@1.0.0")], "/home/.aftman/aftman.toml");
    let found = vec![Some(inner), None, Some(outer)];
    let all = collect_discovered(found, Some(global));
    let paths: Vec<_> = all.iter().map(|m| m.path.clone().unwrap()).collect();
    assert_eq!(paths, vec!["/a/b/aftman.toml", "/a/aftman.toml", "/home/.aftman/aftman.toml"]);
    let (k, id) = find_tool(&all, "tool").unwrap();
    assert_eq!((k, id.to_string()), (0, "a/inner@1.0.0".to_string()));
    let (k, id) = find_tool(&all, "other").unwrap();
    assert_eq!((k, id.to_string()), (1, "a/other@1.0.0".to_string()));
    assert!(find_tool(&all, "missing").is_none());
    let message = unbound_alias_message("missing", &all);
    assert!(message.contains("version of missing, but no aftman.toml files list this tool"));
    assert!(message.ends_with("\n- /a/b/aftman.toml\n- /a/aftman.toml\n- /home/.aftman/aftman.toml"));
}

#[test]
fn nearest_manifest_file() {
    assert_eq!(nearest_manifest(&vec![false, true, true]), Some(1));
    assert_eq!(nearest_manifest(&vec![false, false]), None);
}

#[test]
fn manifest_edit_keeps_comments() {
    let content = "# my tools\n[tools]\n# rojo = \"rojo-rbx/rojo@6.2.0\"\nselene = \"kampfkarren/selene@0.20.0\"\n";
    let alias = ToolAlias::new("rojo").unwrap();
    let id = ToolId::parse("rojo-rbx/rojo@7.2.1").unwrap();
    let edited = edit_manifest_text(content, &alias, &id).unwrap();
    assert!(edited.starts_with("# my tools\n[tools]\n# rojo = \"rojo-rbx/rojo@6.2.0\"\n"));
    assert!(edited.contains("selene = \"kampfkarren/selene@0.20.0\""));
    assert!(edited.contains("rojo = \"rojo-rbx/rojo@7.2.1\""));
    let empty = edit_manifest_text("", &alias, &id).unwrap();
    assert!(empty.contains("rojo = \"rojo-rbx/rojo@7.2.1\""));
    assert!(matches!(edit_manifest_text("tools = 3\n", &alias, &id), Err(ManifestError::ToolsNotTable)));
    assert!(matches!(edit_manifest_text("[tools\n", &alias, &id), Err(ManifestError::Toml(_))));
}

#[test]
fn role_from_invoked_name() {
    assert_eq!(Role::decide("aftman", ""), Role::Manager);
    assert_eq!(Role::decide("aftman.exe", ".exe"), Role::Manager);
    assert_eq!(Role::decide("rojo.exe", ".exe"), Role::Proxy("rojo".to_string()));
    assert_eq!(Role::decide("rojo", ".exe"), Role::Proxy("rojo".to_string()));
    assert_eq!(strip_exe_suffix("selene.exe", ".exe"), "selene");
}

#[test]
fn exit_codes() {
    assert_eq!(exit_code(RunEnd::Exited(Some(3))), 3);
    assert_eq!(exit_code(RunEnd::Exited(None)), 1);
    assert_eq!(exit_code(RunEnd::Signalled(2)), 130);
    assert_eq!(exit_code(RunEnd::Signalled(15)), 143);
}

#[test]
fn storage_names() {
    let id = ToolId::parse("rojo-rbx/rojo@7.2.1").unwrap();
    assert_eq!(exe_path_parts(&id, ".exe"), vec!["rojo-rbx", "rojo", "7.2.1", "rojo.exe"]);
    assert_eq!(executable_name(&id, ""), "rojo");
    assert_eq!(link_name(&ToolAlias::new("r").unwrap(), ".exe"), "r.exe");
    assert_eq!(default_alias(&ToolSpec::parse("rojo-rbx/rojo@7.2.1").unwrap()).as_str(), "rojo");
}

fn zip_of(entries: &[(&str, &[u8])]) -> Vec<u8> {
    let mut w = zip::ZipWriter::new(std::io::Cursor::new(Vec::new()));
    for (name, data) in entries {
        w.start_file(*name, zip::write::FileOptions::default()).unwrap();
        w.write_all(data).unwrap();
    }
    w.finish().unwrap().into_inner()
}

#[test]
fn archive_entry_choice() {
    let names: Vec<String> = ["README.md", "bin/tool.exe", "tool.exe"].iter().map(|s| s.to_string()).collect();
    assert_eq!(choose_entry(&names, "tool.exe", ".exe"), Some(2));
    assert_eq!(choose_entry(&names, "other.exe", ".exe"), Some(1));
    assert_eq!(choose_entry(&names, "other", ".bin"), None);
}

#[test]
fn archive_extraction() {
    let bytes = zip_of(&[("README.md", b"hello"), ("tool", b"binary!")]);
    assert_eq!(extract_executable(&bytes, "tool", ".exe").unwrap(), b"binary!".to_vec());
    assert_eq!(extract_executable(&bytes, "other", "").unwrap(), b"hello".to_vec());
    assert!(matches!(extract_executable(&bytes, "other", ".exe"), Err(ArchiveError::NoExecutable)));
    assert!(matches!(extract_executable(b"not a zip", "tool", ""), Err(ArchiveError::Zip(_))));
}

#[test]
fn listing_to_releases() {
    let listed = GitHubRelease {
        tag_name: "v1.2.3".to_string(),
        prerelease: true,
        assets: vec![
            GitHubReleaseAsset { url: "u1".to_string(), name: "tool-linux-x86_64.zip".to_string() },
            GitHubReleaseAsset { url: "u2".to_string(), name: "tool-linux-x86_64.tar.gz".to_string() },
        ],
    };
    let r = release_from_listing(&listed).unwrap();
    assert_eq!(r.version.to_string(), "1.2.3");
    assert!(r.prerelease);
    assert_eq!(r.assets.len(), 1);
    assert_eq!(r.assets[0].url, "u1");
    let bad = GitHubRelease { tag_name: "nightly".to_string(), prerelease: false, assets: Vec::new() };
    assert!(release_from_listing(&bad).is_none());
    let all = releases_from_listing(&vec![bad, listed]);
    assert_eq!(all.len(), 1);
}

#[test]
fn profile_lines() {
    let line = source_line("$HOME/.aftman/env");
    assert_eq!(line, ". \"$HOME/.aftman/env\"");
    assert_eq!(profile_addition(None, &line), None);
    assert_eq!(profile_addition(Some("export A=1\n"), &line), Some(format!("{}\n", line)));
    assert_eq!(profile_addition(Some("export A=1"), &line), Some(format!("\n{}\n", line)));
    assert_eq!(profile_addition(Some(&format!("x\n{}\n", line)), &line), None);
}
