use neocmake::install::{fallback_candidates, pick_newest, stale_entries, binary_path, release_dir};
use neocmake::platform::{archive_kind, asset_name, exe_suffix, Architecture, ArchiveKind, Os};
use neocmake::version::{parse_number, parse_version_dir, Version};

fn v(major: u32, minor: u32, patch: u32) -> Version {
    Version { major, minor, patch }
}

fn names(list: &[&str]) -> Vec<String> {
    list.iter().map(|s| s.to_string()).collect()
}

#[test]
fn well_formed_names_parse() {
    assert_eq!(parse_version_dir("neocmakelsp-v1.2.3"), Some(v(1, 2, 3)));
    assert_eq!(parse_version_dir("neocmakelsp-v0.8.22"), Some(v(0, 8, 22)));
    assert_eq!(parse_version_dir("neocmakelsp-v10.0.0"), Some(v(10, 0, 0)));
    assert_eq!(parse_version_dir("neocmakelsp-v4294967295.0.1"), Some(v(4294967295, 0, 1)));
}

#[test]
fn rendered_names_round_trip() {
    for &(a, b, c) in &[(0u32, 0u32, 0u32), (1, 2, 9), (1, 3, 0), (1, 2, 10), (123, 45, 6789)] {
        let name = format!("neocmakelsp-v{}.{}.{}", a, b, c);
        assert_eq!(parse_version_dir(&name), Some(v(a, b, c)));
    }
}

#[test]
fn leading_zeros_and_plus_sign_read_as_numbers() {
    assert_eq!(parse_version_dir("neocmakelsp-v01.002.3"), Some(v(1, 2, 3)));
    assert_eq!(parse_version_dir("neocmakelsp-v+1.2.3"), Some(v(1, 2, 3)));
}

#[test]
fn malformed_names_rejected() {
    assert_eq!(parse_version_dir("neocmakelsp-v1.2"), None);
    assert_eq!(parse_version_dir("neocmakelsp-v1.2.3.4"), None);
    assert_eq!(parse_version_dir("neocmakelsp-v1.x.3"), None);
    assert_eq!(parse_version_dir("neocmakelsp-v1.2.3-beta"), None);
    assert_eq!(parse_version_dir("neocmakelsp-v1..3"), None);
    assert_eq!(parse_version_dir("neocmakelsp-v1.2."), None);
    assert_eq!(parse_version_dir("neocmakelsp-v-1.2.3"), None);
    assert_eq!(parse_version_dir("neocmakelsp-v+.2.3"), None);
    assert_eq!(parse_version_dir("neocmakelsp-1.2.3"), None);
    assert_eq!(parse_version_dir("othertool-v1.2.3"), None);
    assert_eq!(parse_version_dir("neocmakelsp-v"), None);
    assert_eq!(parse_version_dir(""), None);
    assert_eq!(parse_version_dir("neocmakelsp-v4294967296.0.0"), None);
}

#[test]
fn numbers_parse_like_u32() {
    let chars = |s: &str| s.chars().collect::<Vec<char>>();
    assert_eq!(parse_number(&chars("0")), Some(0));
    assert_eq!(parse_number(&chars("42")), Some(42));
    assert_eq!(parse_number(&chars("+7")), Some(7));
    assert_eq!(parse_number(&chars("4294967295")), Some(u32::MAX));
    assert_eq!(parse_number(&chars("4294967296")), None);
    assert_eq!(parse_number(&chars("99999999999999999999")), None);
    assert_eq!(parse_number(&chars("")), None);
    assert_eq!(parse_number(&chars("+")), None);
    assert_eq!(parse_number(&chars("1a")), None);
}

#[test]
fn version_order_is_lexicographic() {
    assert!(v(1, 3, 0).is_newer_than(&v(1, 2, 10)));
    assert!(v(1, 2, 10).is_newer_than(&v(1, 2, 9)));
    assert!(v(2, 0, 0).is_newer_than(&v(1, 99, 99)));
    assert!(!v(1, 2, 3).is_newer_than(&v(1, 2, 3)));
    assert!(!v(0, 9, 9).is_newer_than(&v(1, 0, 0)));
}

#[test]
fn fallback_selects_greatest_version() {
    let entries = names(&["neocmakelsp-v1.2.9", "neocmakelsp-v1.3.0", "neocmakelsp-v1.2.10"]);
    let cands = fallback_candidates(&entries, "");
    assert_eq!(cands.len(), 3);
    let i = pick_newest(&cands, &vec![true, true, true]).unwrap();
    assert_eq!(cands[i].version, v(1, 3, 0));
    assert_eq!(cands[i].path, "neocmakelsp-v1.3.0/neocmakelsp");
}

#[test]
fn fallback_skips_malformed_names() {
    let entries = names(&[
        "neocmakelsp-v1.2",
        "neocmakelsp-v9.9.9.9",
        "neocmakelsp-vX.1.1",
        "other-v5.0.0",
        "neocmakelsp-v0.1.0",
        "notes.txt",
    ]);
    let cands = fallback_candidates(&entries, ".exe");
    assert_eq!(cands.len(), 1);
    assert_eq!(cands[0].version, v(0, 1, 0));
    assert_eq!(cands[0].path, "neocmakelsp-v0.1.0/neocmakelsp.exe");
}

#[test]
fn fallback_ignores_candidates_without_binary() {
    let entries = names(&["neocmakelsp-v1.2.9", "neocmakelsp-v1.3.0", "neocmakelsp-v1.2.10"]);
    let cands = fallback_candidates(&entries, "");
    let i = pick_newest(&cands, &vec![true, false, true]).unwrap();
    assert_eq!(cands[i].version, v(1, 2, 10));
    assert_eq!(pick_newest(&cands, &vec![false, false, false]), None);
    assert_eq!(pick_newest(&Vec::new(), &Vec::new()), None);
}

#[test]
fn stale_entries_are_all_but_kept() {
    let entries = names(&["neocmakelsp-v0.8.21", "neocmakelsp-v0.8.22", "junk", "neocmakelsp-v0.8.20"]);
    assert_eq!(
        stale_entries(&entries, "neocmakelsp-v0.8.22"),
        names(&["neocmakelsp-v0.8.21", "junk", "neocmakelsp-v0.8.20"])
    );
    assert_eq!(stale_entries(&names(&["neocmakelsp-v0.8.22"]), "neocmakelsp-v0.8.22"), Vec::<String>::new());
}

#[test]
fn paths_are_built_from_names() {
    assert_eq!(release_dir("v0.8.22"), "neocmakelsp-v0.8.22");
    assert_eq!(binary_path("neocmakelsp-v0.8.22", ".exe"), "neocmakelsp-v0.8.22/neocmakelsp.exe");
    assert_eq!(binary_path("neocmakelsp-v0.8.22", ""), "neocmakelsp-v0.8.22/neocmakelsp");
}

#[test]
fn platform_table() {
    assert_eq!(asset_name(Os::Mac, Architecture::Aarch64), Some("neocmakelsp-universal-apple-darwin.tar.gz"));
    assert_eq!(asset_name(Os::Mac, Architecture::X86), Some("neocmakelsp-universal-apple-darwin.tar.gz"));
    assert_eq!(asset_name(Os::Windows, Architecture::Aarch64), Some("neocmakelsp-aarch64-pc-windows-msvc.zip"));
    assert_eq!(asset_name(Os::Windows, Architecture::X8664), Some("neocmakelsp-x86_64-pc-windows-msvc.zip"));
    assert_eq!(asset_name(Os::Linux, Architecture::Aarch64), Some("neocmakelsp-aarch64-unknown-linux-gnu.tar.gz"));
    assert_eq!(asset_name(Os::Linux, Architecture::X8664), Some("neocmakelsp-x86_64-unknown-linux-gnu.tar.gz"));
    assert_eq!(asset_name(Os::Linux, Architecture::X86), None);
    assert_eq!(asset_name(Os::Windows, Architecture::X86), None);
    assert_eq!(exe_suffix(Os::Windows), ".exe");
    assert_eq!(exe_suffix(Os::Linux), "");
    assert_eq!(exe_suffix(Os::Mac), "");
    assert_eq!(archive_kind(Os::Windows), ArchiveKind::Zip);
    assert_eq!(archive_kind(Os::Linux), ArchiveKind::GzipTar);
    assert_eq!(archive_kind(Os::Mac), ArchiveKind::GzipTar);
}
