use weave::config::{PrebuildConfig, PrebuildFetchSpec, ProjectConfig};
use weave::hashing::{check_hash_request, hash_report, HashArtifactRequest};
use weave::integrity::Integrity;
use weave::policy::{apply_policy_pack, validate_policy_pack, PolicyPack, POLICY_PACK_VERSION};
use weave::textmap::TextMap;

/// Bytes standing for the example native artifact of the policy pack.
const EXAMPLE_NATIVE: &[u8] = b"example-native prebuild for linux-x64 abi 137\n";

fn fetch(url: &str, integrity: String, output: &str) -> PrebuildFetchSpec {
    PrebuildFetchSpec {
        package: "demo".into(),
        url: url.into(),
        integrity,
        output: output.into(),
        node_abi: None,
        os: None,
        cpu: None,
    }
}

/// The example pack: one reviewed fetch of the example native artifact.
fn example_demo_pack() -> PolicyPack {
    let mut declared = TextMap::new();
    declared.insert(
        "example-native".to_string(),
        vec!["prebuilds/linux-x64/addon.node".to_string()],
    );
    PolicyPack {
        version: POLICY_PACK_VERSION,
        id: "example-demo".into(),
        description: "reviewed prebuild for example-native".into(),
        prebuild: PrebuildConfig {
            allow_hosts: vec!["cdn.example.com".into()],
            fetches: vec![PrebuildFetchSpec {
                package: "example-native".into(),
                url: "https://cdn.example.com/example-native/linux-x64-137.node".into(),
                integrity: Integrity::sha256_sri(EXAMPLE_NATIVE).raw,
                output: "prebuilds/linux-x64/addon.node".into(),
                node_abi: Some("137".into()),
                os: Some("linux".into()),
                cpu: Some("x64".into()),
            }],
        },
        allow_packages: vec!["example-native".into()],
        declared_outputs: declared,
    }
}

#[test]
fn apply_never_enables_or_opens() {
    let sri = Integrity::sha256_sri(b"pack-bytes").raw;
    let pack = PolicyPack {
        version: 1,
        id: "demo-pack".into(),
        description: "test".into(),
        prebuild: PrebuildConfig {
            allow_hosts: vec!["cdn.example.com".into()],
            fetches: vec![fetch("https://cdn.example.com/x.node", sri, "prebuilds/x.node")],
        },
        allow_packages: vec!["demo".into()],
        declared_outputs: TextMap::new(),
    };
    validate_policy_pack(&pack).unwrap();
    let mut cfg = ProjectConfig::new("/tmp/store");
    assert!(!cfg.execution.enabled);
    assert_eq!(cfg.execution.profile, "offline");
    let report = apply_policy_pack(&mut cfg, &pack);
    assert!(!cfg.execution.enabled);
    assert_eq!(cfg.execution.profile, "offline");
    assert!(report.enabled_unchanged);
    assert!(report.profile_unchanged);
    assert_eq!(report.fetches_added, 1);
    assert!(cfg.execution.package_allowed("demo"));
}

#[test]
fn rejects_http_in_pack() {
    let sri = Integrity::sha256_sri(b"x").raw;
    let pack = PolicyPack {
        version: 1,
        id: "bad".into(),
        description: String::new(),
        prebuild: PrebuildConfig {
            allow_hosts: vec!["cdn.example.com".into()],
            fetches: vec![fetch("http://cdn.example.com/x.node", sri, "x.node")],
        },
        allow_packages: vec!["demo".into()],
        declared_outputs: TextMap::new(),
    };
    assert!(validate_policy_pack(&pack).is_err());
}

#[test]
fn applying_a_pack_twice_adds_nothing_new() {
    let pack = example_demo_pack();
    let mut cfg = ProjectConfig::new("/tmp/store");
    let first = apply_policy_pack(&mut cfg, &pack);
    assert_eq!(first.fetches_added, 1);
    assert_eq!(first.hosts_added, vec!["cdn.example.com".to_string()]);
    assert_eq!(first.packages_added, vec!["example-native".to_string()]);
    let second = apply_policy_pack(&mut cfg, &pack);
    assert_eq!(second.fetches_added, 0);
    assert!(second.hosts_added.is_empty());
    assert!(second.packages_added.is_empty());
    assert_eq!(cfg.execution.prebuild.fetches.len(), 1);
    assert_eq!(
        cfg.execution.outputs_for("example-native"),
        vec!["prebuilds/linux-x64/addon.node".to_string()]
    );
}

#[test]
fn hash_artifact_matches_policy_pack_fixture() {
    let req = HashArtifactRequest {
        path: "fixtures/policy-packs/example-native.node".into(),
        package: "example-native".into(),
        output: "prebuilds/linux-x64/addon.node".into(),
        url: Some("https://cdn.example.com/example-native/linux-x64-137.node".into()),
        node_abi: Some("137".into()),
        os: Some("linux".into()),
        cpu: Some("x64".into()),
    };
    check_hash_request(&req).unwrap();
    let report = hash_report(&req, &req.path, EXAMPLE_NATIVE).unwrap();
    let pack = example_demo_pack();
    validate_policy_pack(&pack).unwrap();
    assert_eq!(report.integrity, pack.prebuild.fetches[0].integrity);
    assert!(!report.toml_fragment.contains("enabled = true"));
    assert_eq!(report.size_bytes, EXAMPLE_NATIVE.len() as u64);
    assert_eq!(report.host.as_deref(), Some("cdn.example.com"));
}

#[test]
fn apply_policy_pack_never_enables_execution() {
    let mut cfg = ProjectConfig::new("/tmp/store");
    assert_eq!(cfg.version, 1);
    let pack = example_demo_pack();
    let report = apply_policy_pack(&mut cfg, &pack);
    assert!(!cfg.execution.enabled);
    assert_eq!(cfg.execution.profile, "offline");
    assert!(report.enabled_unchanged);
    assert!(report.fetches_added >= 1);
}

#[test]
fn hash_request_refuses_globs_and_missing_package() {
    let mut req = HashArtifactRequest {
        path: "a.node".into(),
        package: "demo".into(),
        output: "prebuilds/*.node".into(),
        url: None,
        node_abi: None,
        os: None,
        cpu: None,
    };
    assert!(check_hash_request(&req).is_err());
    req.output = "prebuilds/a.node".into();
    req.package = "  ".into();
    assert!(check_hash_request(&req).is_err());
    req.package = "demo".into();
    assert!(check_hash_request(&req).is_ok());
    let report = hash_report(&req, "a.node", b"hello weave").unwrap();
    assert_eq!(report.integrity, Integrity::sha256_sri(b"hello weave").raw);
    assert!(report.draft.is_none());
}

#[test]
fn hash_report_refuses_http_url() {
    let req = HashArtifactRequest {
        path: "a.node".into(),
        package: "demo".into(),
        output: "prebuilds/a.node".into(),
        url: Some("http://cdn.example.com/a.node".into()),
        node_abi: None,
        os: None,
        cpu: None,
    };
    assert!(hash_report(&req, "a.node", b"x").is_err());
}
