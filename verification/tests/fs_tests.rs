use std::io::Read;

use weave::acquire::{ArtifactRequest, DefaultArtifactSource, HttpArtifactSource};
use weave::artifact::{hash_bytes, ArtifactId, ContentStore};
use weave::discovery::discovery_dir_candidates;
use weave::environment::{EnvironmentId, EnvironmentRecord, PlatformIdentity};
use weave::error::Error;
use weave::extract::{extract_step, extraction_plan, ExtractStep, TarEntryKind};
use weave::git::{
    branch_from_symbolic_ref, dependency_file_paths, git_failure, head_from_output,
    porcelain_dirty, status_args, toplevel_root,
};
use weave::links::{
    bin_links_for, candidate_checks, candidate_failure, workspace_link_for, Expect, LinkStats,
};
use weave::lockfile::{PackageKey, PackageNode, PackageSource};
use weave::materialize::{MaterializationPlan, PlannedPackage};
use weave::recover::{recover_report, RecoverOpts};
use weave::registry::{artifact_roots, registration_key, weave_home_for_store};
use weave::tarball::{pack_npm_tarball, pack_npm_tarball_for_test, pack_npm_tarball_with_modes, snapshot_rel_path, snapshot_skips};
use weave::textmap::TextMap;
use weave::unpacked::{parent_of, UnpackedCache};

fn unpack(tgz: &[u8]) -> Vec<(String, Vec<u8>, u32)> {
    let mut archive = tar::Archive::new(flate2::read::GzDecoder::new(tgz));
    let mut out = Vec::new();
    for entry in archive.entries().unwrap() {
        let mut entry = entry.unwrap();
        let path = entry.path().unwrap().to_string_lossy().into_owned();
        let mode = entry.header().mode().unwrap();
        let mut data = Vec::new();
        entry.read_to_end(&mut data).unwrap();
        out.push((path, data, mode));
    }
    out
}

fn malicious_tarball(entry_name: &str, data: &[u8]) -> Vec<u8> {
    let mut header = [0u8; 512];
    let name = entry_name.as_bytes();
    assert!(name.len() < 100);
    header[..name.len()].copy_from_slice(name);
    header[100..107].copy_from_slice(b"0000644");
    header[124..135].copy_from_slice(format!("{:011o}", data.len()).as_bytes());
    header[136..147].copy_from_slice(b"00000000000");
    header[156] = b'0';
    header[257..263].copy_from_slice(b"ustar\0");
    header[263] = b'0';
    header[264] = b'0';
    header[148..156].copy_from_slice(b"        ");
    let chk: u32 = header.iter().map(|&b| u32::from(b)).sum();
    header[148..156].copy_from_slice(format!("{chk:06o}\0 ").as_bytes());
    let mut tar = Vec::new();
    tar.extend_from_slice(&header);
    tar.extend_from_slice(data);
    let pad = (512 - (data.len() % 512)) % 512;
    tar.extend(vec![0u8; pad]);
    tar.extend(vec![0u8; 1024]);
    let mut enc = flate2::write::GzEncoder::new(Vec::new(), flate2::Compression::default());
    std::io::Write::write_all(&mut enc, &tar).unwrap();
    enc.finish().unwrap()
}

fn malicious_symlink_tarball(target: &str) -> Vec<u8> {
    let enc = flate2::write::GzEncoder::new(Vec::new(), flate2::Compression::default());
    let mut builder = tar::Builder::new(enc);
    let mut header = tar::Header::new_gnu();
    header.set_entry_type(tar::EntryType::Symlink);
    header.set_size(0);
    header.set_mode(0o777);
    header.set_link_name(target).unwrap();
    header.set_cksum();
    builder.append_data(&mut header, "package/link", std::io::empty()).unwrap();
    builder.into_inner().unwrap().finish().unwrap()
}

#[test]
fn extracts_and_strips_package_prefix() {
    let tgz = pack_npm_tarball_for_test(&vec![
        ("package.json".to_string(), br#"{"name":"demo","version":"1.0.0"}"#.to_vec()),
        ("index.js".to_string(), b"module.exports = 1;\n".to_vec()),
    ])
    .unwrap();
    let entries = unpack(&tgz);
    assert_eq!(entries.len(), 2);
    assert_eq!(entries[0].0, "package/package.json");
    let plan = extraction_plan("out", &tgz).unwrap();
    assert_eq!(plan.len(), 2);
    match &plan[0].0 {
        ExtractStep::WriteFile { path } => assert_eq!(path, "out/package.json"),
        other => panic!("unexpected {other:?}"),
    }
    match &plan[1].0 {
        ExtractStep::WriteFile { path } => assert_eq!(path, "out/index.js"),
        other => panic!("unexpected {other:?}"),
    }
    assert_eq!(plan[1].1, b"module.exports = 1;\n".to_vec());
    assert_eq!(plan[1].2, Some(0o644));
    assert!(!plan.iter().any(|(s, _, _)| matches!(s, ExtractStep::CreateDir { path } if path == "out/package")));
    match extraction_plan("out", b"not a tarball") {
        Err(Error::MaterializationFailed { path, reason }) => {
            assert_eq!(path, "out");
            assert!(reason.starts_with("invalid tar: "));
        }
        other => panic!("unexpected {other:?}"),
    }
}

#[test]
fn packing_keeps_modes_and_order() {
    let tgz = pack_npm_tarball_with_modes(&vec![
        ("bin/cli".to_string(), b"#!/bin/sh\n".to_vec(), 0o755),
        ("a.txt".to_string(), b"a".to_vec(), 0o600),
    ])
    .unwrap();
    let entries = unpack(&tgz);
    assert_eq!(entries[0], ("package/bin/cli".to_string(), b"#!/bin/sh\n".to_vec(), 0o755));
    assert_eq!(entries[1], ("package/a.txt".to_string(), b"a".to_vec(), 0o600));
    assert_eq!(tgz, pack_npm_tarball_with_modes(&vec![
        ("bin/cli".to_string(), b"#!/bin/sh\n".to_vec(), 0o755),
        ("a.txt".to_string(), b"a".to_vec(), 0o600),
    ])
    .unwrap());
}

#[test]
fn rejects_path_traversal_components() {
    for p in ["package/../../etc/passwd", "foo/../../etc/passwd"] {
        let err = extract_step("/tmp/weave-dest", p, TarEntryKind::Regular, None).unwrap_err();
        assert!(matches!(err, Error::MaterializationFailed { .. }));
    }
    assert!(extract_step("/tmp/weave-dest", "../outside", TarEntryKind::Regular, None).is_err());
    assert!(extract_step("/tmp/weave-dest", "/etc/passwd", TarEntryKind::Regular, None).is_err());
}

#[test]
fn rejects_malicious_tar_traversal_entries() {
    let tgz = malicious_tarball("package/../../evil.txt", b"pwned");
    let err = extraction_plan("out", &tgz).unwrap_err();
    assert!(matches!(err, Error::MaterializationFailed { .. }));
    assert!(err.reason().contains("path traversal rejected"));
}

#[test]
fn rejects_absolute_symlink_in_tarball() {
    let tgz = malicious_symlink_tarball("/etc/passwd");
    let err = extraction_plan("out", &tgz).unwrap_err();
    assert!(matches!(err, Error::MaterializationFailed { .. }));
    assert_eq!(err.reason(), "absolute symlink targets are not allowed");
}

#[test]
fn rejects_symlink_traversal_in_tarball() {
    let tgz = malicious_symlink_tarball("../outside");
    let err = extraction_plan("out", &tgz).unwrap_err();
    assert!(matches!(err, Error::MaterializationFailed { .. }));
    assert_eq!(err.reason(), "symlink target escapes package root");
    match extraction_plan("out", &malicious_symlink_tarball("real.js")).unwrap()[0].0 {
        ExtractStep::Symlink { ref path, ref target } => {
            assert_eq!(path, "out/link");
            assert_eq!(target, "real.js");
        }
        ref other => panic!("unexpected {other:?}"),
    }
    assert!(matches!(
        extract_step("out", "package/", TarEntryKind::Directory, None).unwrap(),
        ExtractStep::Skip
    ));
    assert!(matches!(
        extract_step("out", "package/lib", TarEntryKind::Directory, None).unwrap(),
        ExtractStep::CreateDir { .. }
    ));
}

#[test]
fn pack_directory_snapshot_is_deterministic() {
    assert!(snapshot_skips("node_modules"));
    assert!(snapshot_skips(".git"));
    assert!(snapshot_skips(".weave"));
    assert!(!snapshot_skips("src"));
    assert_eq!(snapshot_rel_path("lib\\a.js", "/x/lib/a.js").unwrap(), "lib/a.js");
    assert!(snapshot_rel_path("../a.js", "/x/a.js").is_err());
    let files = vec![("a.js".to_string(), b"1".to_vec(), 0o644), ("lib/index.js".to_string(), b"module.exports=1;\n".to_vec(), 0o644)];
    let a = pack_npm_tarball_with_modes(&files).unwrap();
    assert_eq!(a, pack_npm_tarball_with_modes(&files).unwrap());
    let plan = extraction_plan("out", &a).unwrap();
    match &plan[1].0 {
        ExtractStep::WriteFile { path } => assert_eq!(path, "out/lib/index.js"),
        other => panic!("unexpected {other:?}"),
    }
    assert_eq!(plan[1].1, b"module.exports=1;\n".to_vec());
}

// ----- git -----

#[test]
fn git_outputs_are_interpreted() {
    assert!(porcelain_dirty(" M package.json\n"));
    assert!(!porcelain_dirty("\n"));
    assert_eq!(toplevel_root(true, "/repo\n", "/repo/sub").unwrap(), "/repo");
    assert!(matches!(toplevel_root(false, "", "/x"), Err(Error::NotAGitRepository { .. })));
    assert!(matches!(toplevel_root(true, "  ", "/x"), Err(Error::NotAGitRepository { .. })));
    assert_eq!(branch_from_symbolic_ref(true, "main\n").as_deref(), Some("main"));
    assert_eq!(branch_from_symbolic_ref(false, "main\n"), None);
    assert_eq!(head_from_output("abc1234\n"), "abc1234");
    assert_eq!(
        status_args(&dependency_file_paths()).unwrap(),
        vec!["status", "--porcelain", "--", "package.json", "package-lock.json"]
    );
    assert!(status_args(&Vec::new()).is_none());
    let args = vec!["rev-parse".to_string(), "HEAD".to_string()];
    assert_eq!(git_failure(&args, " fatal: bad\n").reason(), "fatal: bad");
    assert_eq!(git_failure(&args, "").reason(), "git rev-parse HEAD failed");
}

// ----- recovery, registry, caches -----

#[test]
fn recovery_keeps_backup_unless_purged() {
    let r = recover_report("/p".into(), &RecoverOpts { purge_backup: false }, true, true, Some("e1"), false, true);
    assert!(r.removed_candidate);
    assert!(!r.removed_backup);
    assert!(r.cleared_dangling_active);
    assert_eq!(
        r.actions,
        vec![
            "removed leftover candidate /p/.weave/candidate",
            "left backup in place at /p/.weave/node_modules.bak (pass --purge-backup to delete)",
            "cleared dangling active pointer for missing environment e1",
            "registered project for shared-store GC",
        ]
    );
    let r = recover_report("/p".into(), &RecoverOpts { purge_backup: true }, false, true, None, true, false);
    assert!(r.removed_backup);
    assert_eq!(r.actions[0], "no leftover candidate");
    assert_eq!(r.actions[2], "no active environment pointer");
    assert_eq!(r.next_steps.len(), 3);
}

#[test]
fn registry_keys_and_homes() {
    let k = registration_key("/home/u/project");
    assert_eq!(k.len(), 32);
    assert_eq!(k, hash_bytes(b"/home/u/project").as_str()[..32]);
    assert_eq!(weave_home_for_store(Some("/h"), true, "/elsewhere").unwrap(), "/h");
    assert_eq!(weave_home_for_store(Some("/h"), false, "/h/custom/objects").unwrap(), "/h");
    assert_eq!(weave_home_for_store(None, false, "/w/store/objects").unwrap(), "/w");
    assert_eq!(weave_home_for_store(Some("/h"), false, "/data/objects").unwrap(), "/data");
    assert!(weave_home_for_store(None, false, "/").is_err());
}

#[test]
fn artifact_roots_cover_every_environment() {
    let mut a = TextMap::new();
    a.insert("node_modules/ms".to_string(), "1".repeat(64));
    let mut b = TextMap::new();
    b.insert("node_modules/x".to_string(), "2".repeat(64));
    let rec = |id: &str, artifacts: TextMap<String>| EnvironmentRecord {
        id: EnvironmentId::new(id.into()),
        graph_identity: "g".into(),
        platform: PlatformIdentity { os: "linux".into(), arch: "x86_64".into() },
        materialization_version: "4".into(),
        lockfile_version: 3,
        package_count: 1,
        label: None,
        owner: None,
        created_at: None,
        last_activated_at: None,
        artifacts,
    };
    let roots = artifact_roots(&vec![rec("e1", a), rec("e2", b)]);
    assert_eq!(roots, vec!["1".repeat(64), "2".repeat(64)]);
}

#[test]
fn unpacked_cache_sits_beside_the_store() {
    assert_eq!(parent_of("/s/store/objects").as_deref(), Some("/s/store"));
    assert_eq!(parent_of("/").as_deref(), None);
    assert_eq!(parent_of("objects").as_deref(), Some(""));
    let store = ContentStore::at_root("/s/store/objects".into());
    let cache = UnpackedCache::for_store(&store);
    assert_eq!(cache.root(), "/s/store/unpacked");
    let id = ArtifactId::parse(&"ab".repeat(32)).unwrap();
    let rest = "ab".repeat(31);
    assert_eq!(cache.package_dir(&id), format!("/s/store/unpacked/sha256/ab/{rest}"));
    assert_eq!(cache.ready_marker(&id), format!("/s/store/unpacked/sha256/ab/{rest}.ready"));
    assert_eq!(cache.temp_dir(&id, 42), format!("/s/store/unpacked/sha256/ab/.tmp-{rest}-42"));
}

// ----- links -----

fn planned(key: &str, name: Option<&str>) -> PlannedPackage {
    PlannedPackage {
        key: PackageKey::new(key.to_string()),
        name: name.map(|s| s.to_string()),
        artifact_id: Some(hash_bytes(b"x")),
        link_only: false,
        prefer_copy: false,
        bins: TextMap::new(),
        link_target: None,
        likely_native: false,
        has_install_script: false,
    }
}

#[test]
fn nearest_bin_links_point_into_the_package() {
    let mut bins = TextMap::new();
    bins.insert("rimraf".to_string(), "dist\\bin.js".to_string());
    let links = bin_links_for("node_modules/a/node_modules/rimraf", &bins).unwrap();
    assert_eq!(links[0].link, "node_modules/a/node_modules/.bin/rimraf");
    assert_eq!(links[0].target, "../rimraf/dist/bin.js");
    assert_eq!(links[0].script, "dist/bin.js");
    let mut bad = TextMap::new();
    bad.insert("ok".to_string(), "../etc/passwd".to_string());
    assert_eq!(bin_links_for("node_modules/x", &bad).unwrap_err().reason(), "bin path traversal rejected");
    let mut bad_name = TextMap::new();
    bad_name.insert("a/b".to_string(), "x.js".to_string());
    assert_eq!(bin_links_for("node_modules/x", &bad_name).unwrap_err().reason(), "invalid bin name");
}

#[test]
fn workspace_links_are_relative() {
    let mut p = planned("node_modules/@acme/ui", Some("@acme/ui"));
    p.link_only = true;
    p.artifact_id = None;
    p.link_target = Some("./packages/ui".into());
    let w = workspace_link_for(&p).unwrap().unwrap();
    assert_eq!(w.target, "../../packages/ui");
    assert_eq!(w.dir, "packages/ui");
    p.link_target = Some("../secret".into());
    assert!(workspace_link_for(&p).is_err());
    assert!(workspace_link_for(&planned("node_modules/ms", None)).unwrap().is_none());
}

#[test]
fn candidate_checks_follow_the_plan() {
    let mut link = planned("node_modules/@acme/ui", Some("@acme/ui"));
    link.link_only = true;
    link.artifact_id = None;
    link.link_target = Some("packages/ui".into());
    let plan = MaterializationPlan {
        packages: vec![planned("node_modules/ms", None), link],
        skipped_optional_platform: Vec::new(),
    };
    let checks = candidate_checks(&plan);
    assert_eq!(checks.len(), 2);
    assert_eq!(checks[0].kind, Expect::Directory);
    assert_eq!(checks[0].label, "node_modules/ms");
    assert_eq!(checks[1].kind, Expect::Symlink);
    let err = candidate_failure(&checks[0], "/c/node_modules/ms".into());
    assert_eq!(
        err.reason(),
        "expected package directory missing after materialization (node_modules/ms)"
    );
    let mut total = LinkStats::new();
    total.absorb(&LinkStats { hardlinked_files: 2, copied_files: 1, directories_created: 3, symlinks_created: 0 });
    assert_eq!(total.hardlinked_files, 2);
    assert_eq!(total.directories_created, 3);
}

// ----- acquisition sources and discovery directories -----

#[test]
fn http_source_downloads_registry_urls_only() {
    let node = |source: PackageSource| PackageNode {
        key: PackageKey::new("node_modules/ms".into()),
        name: Some("ms".into()),
        version: Some("2.1.3".into()),
        source,
        integrity: None,
        dependencies: TextMap::new(),
        dev_dependencies: TextMap::new(),
        optional_dependencies: TextMap::new(),
        peer_dependencies: TextMap::new(),
        peer_dependencies_meta: TextMap::new(),
        has_install_script: false,
        optional: false,
        dev: false,
        peer: false,
        cpu: Vec::new(),
        os: Vec::new(),
        bundled_dependencies: Vec::new(),
        is_workspace: false,
        is_link: false,
        likely_native: false,
        bin: TextMap::new(),
    };
    let http = HttpArtifactSource::new();
    assert_eq!(http.user_agent, "weave/0.1.0");
    let reg = ArtifactRequest::from_node(&node(PackageSource::Registry { resolved: "https://r/ms.tgz".into() })).unwrap();
    assert_eq!(http.download_url(&reg).unwrap(), "https://r/ms.tgz");
    let path = ArtifactRequest::from_node(&node(PackageSource::Path { path: "../ms".into() })).unwrap();
    assert!(matches!(http.download_url(&path), Err(Error::FetchFailed { .. })));
    let d = DefaultArtifactSource::for_project("/proj".into());
    assert_eq!(d.files.base_dir, "/proj");
}

#[test]
fn discovery_looks_in_candidate_then_live_tree() {
    let (c, l) = discovery_dir_candidates("/p", "node_modules/ms", Some("ms"));
    assert_eq!(c, "/p/.weave/candidate/node_modules/ms");
    assert_eq!(l, "/p/node_modules/ms");
    let (c, l) = discovery_dir_candidates("/p", "packages/ui", Some("@acme/ui"));
    assert_eq!(c, "/p/.weave/candidate/node_modules/@acme/ui");
    assert_eq!(l, "/p/node_modules/@acme/ui");
}

#[test]
fn pack_refuses_parent_components() {
    let files = vec![("../escape.txt".to_string(), b"x".to_vec())];
    match pack_npm_tarball(&files) {
        Err(Error::MaterializationFailed { path, .. }) => assert_eq!(path, "package/../escape.txt"),
        other => panic!("expected a refusal, got {other:?}"),
    }
    let ok = vec![("index.js".to_string(), b"module.exports = 1;\n".to_vec())];
    assert!(pack_npm_tarball(&ok).is_ok());
}
