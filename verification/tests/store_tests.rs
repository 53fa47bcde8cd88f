use weave::artifact::{hash_bytes, ArtifactId, ContentStore};
use weave::environment::{EnvironmentId, PlatformIdentity};
use weave::error::Error;
use weave::gc::{gc_roots, plan_gc};
use weave::lockfile::{
    detect_lockfile_in, DependencyGraph, LockfileKind, PackageKey, PackageNode, PackageSource,
};
use weave::materialize::MaterializationPlan;
use weave::prebuild::HostPlatform;
use weave::textmap::TextMap;

#[test]
fn hashes_are_stable() {
    let id = hash_bytes(b"hello weave");
    assert_eq!(id.as_str().len(), 64);
    assert_eq!(id, hash_bytes(b"hello weave"));
    assert_ne!(id, hash_bytes(b"hello weave!"));
}

#[test]
fn known_digest_of_empty_input() {
    assert_eq!(
        hash_bytes(b"").as_str(),
        "e3b0c44298fc1c149afbf4c8996fb92427ae41e4649b934ca495991b7852b855"
    );
}

#[test]
fn rejects_bad_ids() {
    assert!(ArtifactId::parse("abcd").is_err());
    assert!(ArtifactId::parse(&"g".repeat(64)).is_err());
}

#[test]
fn ids_are_lowercased_and_sharded() {
    let id = ArtifactId::parse(&"AB".repeat(32)).unwrap();
    assert_eq!(id.as_str(), "ab".repeat(32));
    assert_eq!(id.shard(), "ab");
    let store = ContentStore::at_root("/s".into());
    assert_eq!(store.path_for(&id), format!("/s/sha256/ab/{}", "ab".repeat(31)));
}

#[test]
fn put_rejects_expected_id_mismatch() {
    let other = hash_bytes(b"other");
    let err = ContentStore::put_id(b"data", Some(&other)).unwrap_err();
    assert!(matches!(err, Error::ArtifactHashMismatch { .. }));
    assert_eq!(ContentStore::put_id(b"data", None).unwrap(), hash_bytes(b"data"));
}

#[test]
fn verify_detects_corruption() {
    let id = hash_bytes(b"immutable artifact bytes");
    assert!(ContentStore::check_object(&id, b"immutable artifact bytes").is_ok());
    assert!(ContentStore::check_object(&id, b"tampered").is_err());
}

#[test]
fn platform_identity_changes_environment_id() {
    let graph_identity = "demo@1.0.0 lockfile v3 identity";
    let linux = PlatformIdentity { os: "linux".into(), arch: "x86_64".into() };
    let macos = PlatformIdentity { os: "macos".into(), arch: "aarch64".into() };
    let a = EnvironmentId::derive(graph_identity, &linux);
    let b = EnvironmentId::derive(graph_identity, &macos);
    assert_ne!(a, b);
    assert_eq!(a, EnvironmentId::derive(graph_identity, &linux));
    assert_ne!(a, EnvironmentId::derive("another graph", &linux));
}

#[test]
fn detects_missing_lockfile() {
    assert!(detect_lockfile_in("/p", &Vec::new(), None).unwrap().is_none());
}

#[test]
fn detects_v3_lockfile() {
    let info = detect_lockfile_in("/p", &vec!["package-lock.json".into()], Some(3)).unwrap().unwrap();
    assert_eq!(info.kind, LockfileKind::NpmPackageLock);
    assert_eq!(info.lockfile_version, Some(3));
    assert_eq!(info.path, "/p/package-lock.json");
}

#[test]
fn rejects_unsupported_version() {
    let err = detect_lockfile_in("/p", &vec!["package-lock.json".into()], Some(99)).unwrap_err();
    assert!(matches!(err, Error::UnsupportedLockfile { .. }));
}

#[test]
fn rejects_pnpm_only_projects_clearly() {
    let err = detect_lockfile_in("/p", &vec!["pnpm-lock.yaml".into()], None).unwrap_err();
    match err {
        Error::UnsupportedLockfile { reason, .. } => {
            assert!(reason.to_lowercase().contains("pnpm"));
        }
        other => panic!("expected UnsupportedLockfile, got {other:?}"),
    }
}

#[test]
fn dry_run_does_not_delete_objects() {
    let orphan = hash_bytes(b"orphan");
    let kept = hash_bytes(b"kept");
    let roots = gc_roots(&vec![kept.as_str().to_string()], &Vec::new());
    let plan = plan_gc(
        &vec![orphan.as_str().to_string(), kept.as_str().to_string()],
        &Vec::new(),
        &roots,
    );
    assert_eq!(plan.remove_objects, vec![orphan.as_str().to_string()]);
    assert!(plan.remove_unpacked.is_empty());
}

#[test]
fn gc_roots_skip_malformed_ids() {
    let a = "A".repeat(64);
    let roots = gc_roots(&vec![a.clone(), "nope".into()], &vec!["a".repeat(64)]);
    assert_eq!(roots, vec!["a".repeat(64)]);
}

fn node(key: &str, name: &str) -> PackageNode {
    PackageNode {
        key: PackageKey::new(key.to_string()),
        name: Some(name.into()),
        version: Some("1.0.0".into()),
        source: PackageSource::Registry { resolved: "https://example/n.tgz".into() },
        integrity: None,
        dependencies: TextMap::new(),
        dev_dependencies: TextMap::new(),
        optional_dependencies: TextMap::new(),
        peer_dependencies: TextMap::new(),
        peer_dependencies_meta: TextMap::new(),
        has_install_script: false,
        optional: false,
        dev: false,
        peer: false,
        cpu: Vec::new(),
        os: Vec::new(),
        bundled_dependencies: Vec::new(),
        is_workspace: false,
        is_link: false,
        likely_native: false,
        bin: TextMap::new(),
    }
}

#[test]
fn native_and_install_script_packages_prefer_copy() {
    let mut nodes = TextMap::new();
    let mut root = node("", "root");
    root.source = PackageSource::Workspace;
    root.is_workspace = true;
    nodes.insert(String::new(), root);
    let mut native = node("node_modules/native-addon", "native-addon");
    native.has_install_script = true;
    native.likely_native = true;
    native.cpu = vec!["x64".into()];
    native.os = vec!["linux".into()];
    nodes.insert("node_modules/native-addon".to_string(), native);
    let graph = DependencyGraph {
        lockfile_kind: LockfileKind::NpmPackageLock,
        lockfile_version: 3,
        root: PackageKey::root(),
        nodes,
        edges: Vec::new(),
    };
    let id = hash_bytes(b"exports.n=1;");
    let mut artifacts = TextMap::new();
    artifacts.insert("node_modules/native-addon".to_string(), id);
    let host = HostPlatform::from_rust("linux", "x86_64");
    let plan = MaterializationPlan::from_graph_for_platform(&graph, &artifacts, &host);
    assert_eq!(plan.packages.len(), 1);
    assert!(plan.packages[0].prefer_copy);
    assert_eq!(plan.packages[0].name.as_deref(), Some("native-addon"));
    let other = HostPlatform::from_rust("macos", "aarch64");
    let plan = MaterializationPlan::from_graph_for_platform(&graph, &artifacts, &other);
    assert!(plan.packages.is_empty());
    assert_eq!(plan.skipped_optional_platform, vec!["node_modules/native-addon".to_string()]);
}
