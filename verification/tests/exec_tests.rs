use sha2::Digest;
use weave::execution::{build_exec_identity, digest_tree_entries, node_identity_of};
use weave::hashing::check_hash_source;
use weave::json::JsonValue;
use weave::execution::check_sealed_outputs;
use weave::config::ExecutionConfig;
use weave::execution::{
    check_cache_record, exec_identity, list_digest, require_execution_enabled, run_gate,
    ExecCacheRecord, ExecIdentity,
};
use weave::prebuild::HostPlatform;
use weave::textmap::TextMap;

fn identity(abi: &str, outputs_digest: &str) -> ExecIdentity {
    ExecIdentity {
        os: "linux".into(),
        cpu: "x64".into(),
        node_abi: abi.into(),
        node_version: "24.0.0".into(),
        profile: "offline".into(),
        scripts_digest: "s1".into(),
        outputs_digest: outputs_digest.into(),
        input_digest: "i1".into(),
    }
}

fn exec_gen_cfg(enabled: bool) -> ExecutionConfig {
    let mut declared = TextMap::new();
    declared.insert("exec-gen".to_string(), vec!["generated/hello.txt".to_string()]);
    ExecutionConfig {
        enabled,
        profile: "offline".into(),
        allow_packages: vec!["exec-gen".into()],
        allow_scripts: vec!["install".into()],
        declared_outputs: declared,
        ..ExecutionConfig::default()
    }
}

#[test]
fn disabled_execution_is_rejected() {
    let cfg = exec_gen_cfg(false);
    let err = require_execution_enabled(&cfg).unwrap_err();
    assert!(err.reason().contains("disabled"));
}

#[test]
fn enabled_execution_passes_the_gate() {
    let cfg = exec_gen_cfg(true);
    assert!(require_execution_enabled(&cfg).is_ok());
    assert_eq!(run_gate(&cfg, "exec-gen").unwrap(), vec!["generated/hello.txt".to_string()]);
    assert!(run_gate(&cfg, "other").is_err());
}

#[test]
fn cache_identity_changes_with_abi_and_outputs() {
    let a = identity("137", "o1");
    let b = identity("108", "o1");
    assert_ne!(a.cache_key(), b.cache_key());
    let c = identity("137", "o2");
    assert_ne!(a.cache_key(), c.cache_key());
    assert_eq!(a.cache_key(), identity("137", "o1").cache_key());
    assert_eq!(a.cache_key().len(), 64);
}

#[test]
fn platform_abi_mismatch_fails_verify() {
    let identity = identity("137", "o1");
    let record = ExecCacheRecord {
        package: "exec-gen".into(),
        output_artifact_id: "a".repeat(64),
        cache_key: identity.cache_key(),
        sealed_paths: vec!["generated/hello.txt".into()],
        node_abi: "108".into(),
        os: identity.os.clone(),
        cpu: identity.cpu.clone(),
        profile: identity.profile.clone(),
    };
    let err = check_cache_record(&identity, &record, &vec!["generated/hello.txt".into()])
        .unwrap_err();
    assert!(err.reason().contains("identity mismatch"), "{}", err.reason());
}

#[test]
fn matching_cache_record_yields_its_artifact() {
    let identity = identity("137", "o1");
    let record = ExecCacheRecord {
        package: "exec-gen".into(),
        output_artifact_id: "A".repeat(64),
        cache_key: identity.cache_key(),
        sealed_paths: vec!["generated/hello.txt".into()],
        node_abi: "137".into(),
        os: "linux".into(),
        cpu: "x64".into(),
        profile: "offline".into(),
    };
    let id = check_cache_record(&identity, &record, &vec!["generated\\hello.txt".into()]).unwrap();
    assert_eq!(id.as_str(), "a".repeat(64));
    let err = check_cache_record(&identity, &record, &vec!["other.txt".into()]).unwrap_err();
    assert!(err.reason().contains("sealed_paths"));
}

#[test]
fn identity_digests_follow_config() {
    let cfg = exec_gen_cfg(true);
    let host = HostPlatform::from_rust("linux", "x86_64");
    let id = exec_identity(&cfg, "exec-gen", &host, "137".into(), "24.0.0".into(), "in".into());
    assert_eq!(id.os, "linux");
    assert_eq!(id.cpu, "x64");
    assert_eq!(id.scripts_digest, list_digest(&vec!["install".to_string()]));
    assert_eq!(id.outputs_digest, list_digest(&vec!["generated/hello.txt".to_string()]));
    assert_ne!(list_digest(&vec!["a".into(), "b".into()]), list_digest(&vec!["ab".into()]));
    assert_eq!(
        list_digest(&vec!["b".into(), "a".into()]),
        list_digest(&vec!["a".into(), "b".into()])
    );
}

#[test]
fn matching_cache_record_with_bad_artifact_id_is_refused() {
    let identity = identity("137", "o1");
    let record = ExecCacheRecord {
        package: "exec-gen".into(),
        output_artifact_id: "not-an-id".into(),
        cache_key: identity.cache_key(),
        sealed_paths: vec!["generated/hello.txt".into()],
        node_abi: "137".into(),
        os: "linux".into(),
        cpu: "x64".into(),
        profile: "offline".into(),
    };
    let err = check_cache_record(&identity, &record, &vec!["generated/hello.txt".into()]).unwrap_err();
    assert!(matches!(err, weave::error::Error::InvalidState { .. }));
}

#[test]
fn sealed_outputs_must_match_declared_set() {
    let declared = vec!["generated\\hello.txt".to_string()];
    let ok = check_sealed_outputs("pkg", &declared, &vec!["generated/hello.txt".into()]).unwrap();
    assert_eq!(ok, vec!["generated/hello.txt".to_string()]);
    let err = check_sealed_outputs("pkg", &declared, &vec!["generated/hello.txt".into(), "secret.txt".into()])
        .unwrap_err();
    assert!(err.reason().contains("undeclared"), "{}", err.reason());
    let err = check_sealed_outputs("pkg", &declared, &vec![]).unwrap_err();
    assert_eq!(err.reason(), "declared output missing from sealed artifact: generated/hello.txt");
    let err = check_sealed_outputs("pkg", &vec![], &vec!["a".into()]).unwrap_err();
    assert!(err.reason().contains("empty declared_outputs"));
    let err = check_sealed_outputs("pkg", &vec!["../etc/passwd".into()], &vec![]).unwrap_err();
    assert!(matches!(err, weave::error::Error::MaterializationFailed { .. }));
}

fn expected_digest(files: &[(&str, &[u8])]) -> String {
    let mut h = sha2::Sha256::new();
    for (p, b) in files {
        h.update(p.as_bytes());
        h.update(b"\0");
        h.update(b);
        h.update(b"\0");
    }
    h.finalize().iter().map(|b| format!("{b:02x}")).collect()
}

#[test]
fn digest_excluding_declared_is_stable_after_apply() {
    let before_files = vec![
        ("scripts/install.js".to_string(), b"x".to_vec()),
        ("package.json".to_string(), b"{}".to_vec()),
    ];
    let exclude = vec!["generated/hello.txt".to_string()];
    let before = digest_tree_entries(&before_files, &exclude);
    let mut after_files = before_files.clone();
    after_files.push(("generated\\hello.txt".to_string(), b"out\n".to_vec()));
    let after = digest_tree_entries(&after_files, &exclude);
    assert_eq!(before, after);
    assert_ne!(digest_tree_entries(&after_files, &vec![]), before);
    assert_eq!(before, expected_digest(&[("package.json", b"{}"), ("scripts/install.js", b"x")]));
}

#[test]
fn exec_identity_digests_the_input_tree() {
    let cfg = exec_gen_cfg(true);
    let host = HostPlatform::from_rust("linux", "x86_64");
    let files = vec![("package.json".to_string(), b"{}".to_vec()), ("generated/hello.txt".to_string(), b"old".to_vec())];
    let id = build_exec_identity(&cfg, "exec-gen", &host, "137".into(), "24.0.0".into(), &files);
    assert_eq!(id.input_digest, expected_digest(&[("package.json", b"{}")]));
    assert_eq!(id.node_abi, "137");
}

#[test]
fn node_probe_output_is_read() {
    let v = JsonValue::Object(vec![
        ("abi".to_string(), JsonValue::Str("137".into())),
        ("ver".to_string(), JsonValue::Str("24.0.0".into())),
    ]);
    assert_eq!(node_identity_of(&v).unwrap(), ("137".to_string(), "24.0.0".to_string()));
    let empty = JsonValue::Object(vec![("ver".to_string(), JsonValue::Str("24.0.0".into()))]);
    assert_eq!(node_identity_of(&empty).unwrap_err().reason(), "empty Node ABI");
}

#[test]
fn hash_source_must_be_a_regular_file() {
    assert!(check_hash_source("a.node", false, true).is_ok());
    assert!(check_hash_source("a.node", true, true).unwrap_err().reason().contains("refusing to hash symlink"));
    assert_eq!(check_hash_source("dir", false, false).unwrap_err().reason(), "path is not a regular file");
}
