use weave::acquire::{
    acquisition_requests, artifact_route, check_fetched, ArtifactRequest, ArtifactRoute,
    FileArtifactSource,
};
use weave::artifact::{hash_bytes, ArtifactId};
use weave::audit::{platform_fit, PeerAuditStatus, PlatformFit};
use weave::config::ExecutionConfig;
use weave::doctor::{
    active_env_finding, artifact_summary_finding, corrupt_artifact_finding, init_finding,
    invalid_artifact_id_finding, missing_lockfile_finding, native_tree_finding,
    push_leftover_findings, repository_finding, store_finding, DoctorSeverity,
};
use weave::environment::{
    active_matches_lockfile, branch_association, environment_record, parse_u64, plan_env_prune,
    resolve_environment, CreateEnvironmentOpts,
    EnvPruneOpts, EnvironmentId, EnvironmentRecord, PlatformIdentity,
};
use weave::error::Error;
use weave::guide::{adoption_guide, render_adoption_guide};
use weave::integrity::Integrity;
use weave::lockfile::{DependencyGraph, LockfileKind, PackageKey, PackageNode, PackageSource};
use weave::prebuild::HostPlatform;
use weave::project::{compute_next_steps, gitignore_addition, init_outcome};
use weave::switch::{check_peer_semantics, check_target, switch_exec_gate, SwitchOptions};
use weave::textmap::TextMap;

fn node(key: &str, name: &str) -> PackageNode {
    PackageNode {
        key: PackageKey::new(key.to_string()),
        name: Some(name.into()),
        version: Some("1.0.0".into()),
        source: PackageSource::Registry { resolved: format!("https://example/{name}.tgz") },
        integrity: None,
        dependencies: TextMap::new(),
        dev_dependencies: TextMap::new(),
        optional_dependencies: TextMap::new(),
        peer_dependencies: TextMap::new(),
        peer_dependencies_meta: TextMap::new(),
        has_install_script: false,
        optional: false,
        dev: false,
        peer: false,
        cpu: Vec::new(),
        os: Vec::new(),
        bundled_dependencies: Vec::new(),
        is_workspace: false,
        is_link: false,
        likely_native: false,
        bin: TextMap::new(),
    }
}

fn graph_with(nodes: Vec<PackageNode>) -> DependencyGraph {
    let mut map = TextMap::new();
    for n in nodes {
        map.insert(n.key.as_str().to_string(), n);
    }
    DependencyGraph {
        lockfile_kind: LockfileKind::NpmPackageLock,
        lockfile_version: 3,
        root: PackageKey::root(),
        nodes: map,
        edges: Vec::new(),
    }
}

fn linux() -> HostPlatform {
    HostPlatform::from_rust("linux", "x86_64")
}

fn record(id: &str, label: Option<&str>, owner: Option<&str>, stamp: &str) -> EnvironmentRecord {
    EnvironmentRecord {
        id: EnvironmentId::new(id.into()),
        graph_identity: "g".into(),
        platform: PlatformIdentity { os: "linux".into(), arch: "x86_64".into() },
        materialization_version: "4".into(),
        lockfile_version: 3,
        package_count: 1,
        label: label.map(|s| s.to_string()),
        owner: owner.map(|s| s.to_string()),
        created_at: Some(stamp.into()),
        last_activated_at: None,
        artifacts: TextMap::new(),
    }
}

// ----- switch -----

#[test]
fn plain_switch_stays_execution_free_even_when_config_enabled() {
    let cfg = ExecutionConfig { enabled: true, ..ExecutionConfig::default() };
    let opts = SwitchOptions { with_exec: false, owner: None };
    assert_eq!(switch_exec_gate(&opts, Some(&cfg), ".weave/config.toml").unwrap(), false);
    assert_eq!(switch_exec_gate(&opts, None, ".weave/config.toml").unwrap(), false);
}

#[test]
fn with_exec_rejected_when_config_disabled() {
    let cfg = ExecutionConfig::default();
    let opts = SwitchOptions { with_exec: true, owner: None };
    let err = switch_exec_gate(&opts, Some(&cfg), ".weave/config.toml").unwrap_err();
    assert!(err.reason().contains("enabled") || err.reason().contains("with-exec"));
    let on = ExecutionConfig { enabled: true, ..ExecutionConfig::default() };
    assert_eq!(switch_exec_gate(&opts, Some(&on), ".weave/config.toml").unwrap(), true);
}

#[test]
fn missing_required_peer_blocks_switch() {
    let mut ui = node("node_modules/ui-kit", "ui-kit");
    ui.peer_dependencies.insert("react".to_string(), "^18".to_string());
    let mut opt = node("node_modules/plugin", "plugin");
    opt.peer_dependencies.insert("host-api".to_string(), "*".to_string());
    opt.peer_dependencies_meta.insert("host-api".to_string(), true);
    let g = graph_with(vec![ui, opt]);
    let findings = g.audit_peers();
    assert_eq!(findings.len(), 2);
    assert!(findings
        .iter()
        .any(|f| f.peer == "react" && matches!(f.status, PeerAuditStatus::MissingRequired)));
    assert!(findings
        .iter()
        .any(|f| f.peer == "host-api" && matches!(f.status, PeerAuditStatus::MissingOptional)));
    let err = check_peer_semantics(&findings).unwrap_err();
    assert!(err.reason().contains("node_modules/ui-kit requires peer react (^18)"));
}

#[test]
fn peers_resolve_by_node_resolution() {
    let mut ui = node("node_modules/ui-kit", "ui-kit");
    ui.peer_dependencies.insert("react".to_string(), "^18".to_string());
    let g = graph_with(vec![ui, node("node_modules/react", "react")]);
    let findings = g.audit_peers();
    match &findings[0].status {
        PeerAuditStatus::Satisfied { resolved } => assert_eq!(resolved, "node_modules/react"),
        other => panic!("expected a satisfied peer, got {other:?}"),
    }
    assert!(check_peer_semantics(&findings).is_ok());
}

#[test]
fn switch_target_must_match_current_lockfile() {
    let envs = vec![record("abc123", Some("main"), None, "1"), record("def456", None, None, "1")];
    let current = EnvironmentId::new("abc123".into());
    assert!(check_target(&envs, "main", &current, ".weave/environments").is_ok());
    let err = check_target(&envs, "def", &current, ".weave/environments").unwrap_err();
    assert!(err.reason().contains("current lockfile produces abc123"));
    let err = check_target(&envs, "zzz", &current, ".weave/environments").unwrap_err();
    assert!(err.reason().contains("no environment matches target 'zzz'"));
}

// ----- environments -----

#[test]
fn resolves_by_label_id_or_prefix() {
    let envs = vec![record("abc123", Some("main"), None, "1"), record("abd999", None, None, "1")];
    assert_eq!(resolve_environment(&envs, "main", "d").unwrap(), 0);
    assert_eq!(resolve_environment(&envs, "abd", "d").unwrap(), 1);
    let err = resolve_environment(&envs, "ab", "d").unwrap_err();
    assert_eq!(err.reason(), "ambiguous environment target 'ab' matches 2 records; use a longer id");
    let err = resolve_environment(&envs, "x", "d").unwrap_err();
    assert_eq!(err.reason(), "no environment matches 'x'");
}

#[test]
fn env_remove_and_prune_abandoned_owner_records() {
    let envs = vec![
        record("e1", None, Some("agent-a"), "100"),
        record("e2", None, Some("agent-a"), "900"),
        record("e3", None, Some("agent-b"), "100"),
        record("e4", None, Some("agent-a"), "100"),
    ];
    let active = EnvironmentId::new("e4".into());
    let opts = EnvPruneOpts { owner: "agent-a".into(), older_than_secs: Some(500), dry_run: true };
    let rep = plan_env_prune(&envs, &opts, Some(&active), 1000, ".weave/environments").unwrap();
    assert_eq!(rep.removed_ids, vec!["e1".to_string()]);
    assert_eq!(rep.skipped_too_recent, 1);
    assert_eq!(rep.skipped_active.as_deref(), Some("e4"));
    assert!(rep.dry_run);
    let blank = EnvPruneOpts { owner: "  ".into(), older_than_secs: None, dry_run: false };
    assert!(plan_env_prune(&envs, &blank, None, 1000, ".weave/environments").is_err());
}

#[test]
fn recreated_record_keeps_prior_label_and_stamps() {
    let prior = {
        let mut r = record("e1", Some("main"), Some("agent"), "10");
        r.last_activated_at = Some("20".into());
        r
    };
    let opts = CreateEnvironmentOpts { label: None, owner: None };
    let r = environment_record(
        EnvironmentId::new("e1".into()),
        "g",
        PlatformIdentity { os: "linux".into(), arch: "x86_64".into() },
        3,
        5,
        &TextMap::new(),
        &opts,
        Some(&prior),
        "99",
    );
    assert_eq!(r.label.as_deref(), Some("main"));
    assert_eq!(r.owner.as_deref(), Some("agent"));
    assert_eq!(r.created_at.as_deref(), Some("10"));
    assert_eq!(r.last_activated_at.as_deref(), Some("20"));
    assert_eq!(r.materialization_version, "4");
    assert_eq!(parse_u64("+42"), Some(42));
    assert_eq!(parse_u64("18446744073709551616"), None);
}

// ----- project -----

#[test]
fn next_steps_follow_project_state() {
    assert_eq!(
        compute_next_steps(false, true, false, false, false, false, None, false),
        vec!["weave init --json", "weave doctor --json", "weave switch --json"]
    );
    assert_eq!(
        compute_next_steps(true, true, false, true, true, false, Some(true), false),
        vec!["weave status --json", "weave doctor --json"]
    );
    assert_eq!(
        compute_next_steps(true, true, false, true, true, true, Some(false), false),
        vec!["weave recover --json", "weave switch --json", "weave status --json"]
    );
    assert_eq!(compute_next_steps(true, false, false, false, false, false, None, false).len(), 1);
}

#[test]
fn gitignore_gets_weave_dir_once() {
    assert_eq!(gitignore_addition(None).as_deref(), Some(".weave/\n"));
    assert_eq!(gitignore_addition(Some("node_modules\n")).as_deref(), Some(".weave/\n"));
    assert_eq!(gitignore_addition(Some("node_modules")).as_deref(), Some("\n.weave/\n"));
    assert_eq!(gitignore_addition(Some("x\n.weave/\n")), None);
    let out = init_outcome("/p".into(), "/p/.weave".into(), "/s".into(), false);
    assert!(out.lockfile_present);
    assert_eq!(out.next_steps[0], "weave doctor --json");
}

// ----- guide and doctor -----

#[test]
fn guide_lists_rules_and_project_steps() {
    let g = adoption_guide(vec!["weave switch --json".into()]);
    let text = render_adoption_guide(&g);
    assert!(text.starts_with("# "));
    assert!(text.contains("weave switch --json"));
    assert!(text.contains("Auto-enable execution or networking"));
}

#[test]
fn doctor_summarizes_artifacts_and_native_trees() {
    let ok = artifact_summary_finding(3, 0);
    assert_eq!(ok.severity, DoctorSeverity::Info);
    let bad = artifact_summary_finding(3, 1);
    assert_eq!(bad.severity, DoctorSeverity::Error);
    assert!(native_tree_finding(0, 0).is_none());
    assert!(native_tree_finding(2, 1).is_some());
}

// ----- platform filtering and acquisition -----

#[test]
fn platform_constraints_allow_deny_and_skip_optional() {
    let mut n = node("node_modules/fsevents", "fsevents");
    n.os = vec!["darwin".into()];
    assert_eq!(platform_fit(&n, &linux()), PlatformFit::RejectRequired);
    n.optional = true;
    assert_eq!(platform_fit(&n, &linux()), PlatformFit::SkipOptional);
    n.os = vec!["!win32".into()];
    assert_eq!(platform_fit(&n, &linux()), PlatformFit::Compatible);
    n.cpu = vec!["arm64".into()];
    assert_eq!(platform_fit(&n, &linux()), PlatformFit::SkipOptional);
}

#[test]
fn acquisition_skips_optional_and_rejects_required_mismatch() {
    let mut fsevents = node("node_modules/fsevents", "fsevents");
    fsevents.os = vec!["darwin".into()];
    fsevents.optional = true;
    let g = graph_with(vec![node("node_modules/ms", "ms"), fsevents]);
    let (reqs, rep) = acquisition_requests(&g, &linux()).unwrap();
    assert_eq!(reqs.len(), 1);
    assert_eq!(reqs[0].name, "ms");
    assert_eq!(rep.skipped_keys, vec!["node_modules/fsevents".to_string()]);
    let mut native = node("node_modules/linux-only", "linux-only");
    native.os = vec!["linux".into()];
    let g = graph_with(vec![native]);
    let mac = HostPlatform::from_rust("macos", "aarch64");
    assert!(matches!(acquisition_requests(&g, &mac), Err(Error::InvalidState { .. })));
}

#[test]
fn fetched_bytes_are_checked_against_integrity() {
    let mut n = node("node_modules/ms", "ms");
    n.integrity = Some(Integrity::sha256_sri(b"tarball").raw);
    let req = ArtifactRequest::from_node(&n).unwrap();
    let id: ArtifactId = check_fetched(&req, b"tarball").unwrap();
    assert_eq!(id, hash_bytes(b"tarball"));
    assert!(check_fetched(&req, b"other").is_err());
    assert_eq!(artifact_route(&req).unwrap(), ArtifactRoute::Http);
}

#[test]
fn file_source_resolves_overrides_and_paths() {
    let mut n = node("node_modules/local-lib", "local-lib");
    n.source = PackageSource::Path { path: "libs/local".into() };
    let req = ArtifactRequest::from_node(&n).unwrap();
    let src = FileArtifactSource::new("/proj".into());
    assert_eq!(src.resolve_path(&req).unwrap(), "/proj/libs/local");
    let src = src.with_override("local-lib".into(), "/tmp/x.tgz".into());
    assert_eq!(src.resolve_path(&req).unwrap(), "/tmp/x.tgz");
    assert_eq!(artifact_route(&req).unwrap(), ArtifactRoute::Files);
}

#[test]
fn status_links_branch_and_active_environment() {
    let mut a = record("e1", Some("main"), None, "1");
    a.graph_identity = "g1".into();
    let mut b = record("e2", Some("feature"), None, "1");
    b.graph_identity = "g2".into();
    let envs = vec![a, b];
    assert_eq!(branch_association(&envs, Some("feature")).as_deref(), Some("e2"));
    assert_eq!(branch_association(&envs, Some("other")), None);
    assert_eq!(branch_association(&envs, None), None);
    assert_eq!(active_matches_lockfile(&envs, Some("e1"), Some("g1")), Some(true));
    assert_eq!(active_matches_lockfile(&envs, Some("e2"), Some("g1")), Some(false));
    assert_eq!(active_matches_lockfile(&envs, Some("e9"), Some("g1")), None);
    assert_eq!(active_matches_lockfile(&envs, None, Some("g1")), None);
}

#[test]
fn doctor_findings_describe_project_state() {
    let f = repository_finding("/repo", None);
    assert_eq!(f.message, "repository /repo (branch detached)");
    assert_eq!(missing_lockfile_finding().severity, DoctorSeverity::Error);
    assert_eq!(init_finding(false).severity, DoctorSeverity::Warn);
    assert_eq!(store_finding("/s", true).message, "object store ok at /s");
    assert_eq!(active_env_finding(Some("e1"), false).message, "active pointer e1 has no environment record");
    let mut fs = Vec::new();
    push_leftover_findings(&mut fs, "/p/.weave/candidate", true, "/p/.weave/node_modules.bak", false);
    assert_eq!(fs.len(), 1);
    assert_eq!(fs[0].check, "candidate");
    assert_eq!(corrupt_artifact_finding("ab").check, "artifact-corrupt");
    assert_eq!(invalid_artifact_id_finding("e1", "zz").message, "invalid artifact id in env e1: zz");
}
