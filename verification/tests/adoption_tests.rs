use weave::adoption::{assess_adoption, render_adoption_text, AdoptionVerdict};
use weave::config::ExecutionConfig;
use weave::discovery::{ExecNeedClass, ExecSandboxProfile};
use weave::lockfile::{DependencyGraph, LockfileKind, PackageKey, PackageNode, PackageSource};
use weave::plan::plan_execution_with_config;
use weave::prebuild::{
    HostPlatform, NativePrebuildRequirement, PrebuildPatternKind, PrebuildResolveStatus,
};
use weave::textmap::TextMap;

fn host() -> HostPlatform {
    HostPlatform::from_rust("linux", "x86_64")
}

fn graph_with(nodes: Vec<PackageNode>) -> DependencyGraph {
    let mut map = TextMap::new();
    for n in nodes {
        let key = n.key.as_str().to_string();
        map.insert(key, n);
    }
    DependencyGraph {
        lockfile_kind: LockfileKind::NpmPackageLock,
        lockfile_version: 3,
        root: PackageKey::root(),
        nodes: map,
        edges: Vec::new(),
    }
}

fn pkg(key: &str, name: &str, install: bool, native: bool) -> PackageNode {
    PackageNode {
        key: PackageKey::new(key.to_string()),
        name: Some(name.into()),
        version: Some("1.0.0".into()),
        source: PackageSource::Registry { resolved: format!("https://example/{name}.tgz") },
        integrity: None,
        dependencies: TextMap::new(),
        dev_dependencies: TextMap::new(),
        optional_dependencies: TextMap::new(),
        peer_dependencies: TextMap::new(),
        peer_dependencies_meta: TextMap::new(),
        has_install_script: install,
        optional: false,
        dev: false,
        peer: false,
        cpu: Vec::new(),
        os: Vec::new(),
        bundled_dependencies: Vec::new(),
        is_workspace: false,
        is_link: false,
        likely_native: native,
        bin: TextMap::new(),
    }
}

#[test]
fn extraction_only_is_ready_without_exec_config() {
    let g = graph_with(vec![pkg("node_modules/ms", "ms", false, false)]);
    let plan = plan_execution_with_config(&g, None, &host(), "137");
    let a = assess_adoption(&g, &plan, None, &host());
    assert_eq!(a.verdict, AdoptionVerdict::ExtractionReady);
    assert!(!a.execution_config_required);
    assert!(a.summary.contains("No execution configuration"));
    let text = render_adoption_text(&a);
    assert!(text.contains("weave switch"));
}

#[test]
fn native_gap_is_partial_with_manual_sri_guidance() {
    let g = graph_with(vec![pkg(
        "node_modules/demo-bcrypt-like",
        "demo-bcrypt-like",
        true,
        true,
    )]);
    let mut plan = plan_execution_with_config(&g, None, &host(), "137");
    if let Some(e) = plan.entries.iter_mut().next() {
        e.needs_execution = true;
        e.class = ExecNeedClass::NativeBuild;
        e.sandbox = ExecSandboxProfile::PrebuildFetch;
        e.native_prebuilds = vec![NativePrebuildRequirement {
            package: "demo-bcrypt-like".into(),
            pattern: PrebuildPatternKind::NodePreGypBinary,
            status: PrebuildResolveStatus::NeedsIntegrity,
            url: Some("https://cdn.example.com/x.tar.gz".into()),
            host: Some("cdn.example.com".into()),
            output: Some("lib/binding/x.node".into()),
            integrity: None,
            node_abi: Some("137".into()),
            os: Some("linux".into()),
            cpu: Some("x64".into()),
            unresolved_tokens: Vec::new(),
            reason: "integrity missing".into(),
        }];
    }
    plan.needs_execution_count = 1;
    plan.native_policy_gap_count = 1;
    let a = assess_adoption(&g, &plan, None, &host());
    assert_eq!(a.verdict, AdoptionVerdict::PartialNeedsPolicy);
    assert!(a.execution_config_required);
    assert!(a.gaps.iter().any(|g| g.user_must.contains("SRI")));
    let text = render_adoption_text(&a);
    assert!(text.contains("weave exec plan"));
    assert!(text.contains("never invents"));
}

#[test]
fn plan_marks_native_and_scripts_without_executing() {
    let g = graph_with(vec![
        pkg("node_modules/left-pad", "left-pad", false, false),
        pkg("node_modules/sqlite3", "sqlite3", true, true),
        pkg("node_modules/esbuild", "esbuild", true, false),
    ]);
    let plan = plan_execution_with_config(&g, None, &host(), "137");
    assert!(!plan.executed);
    assert_eq!(plan.needs_execution_count, 2);
    assert_eq!(plan.would_execute_count, 0);
    let sqlite = plan
        .entries
        .iter()
        .find(|e| e.name.as_deref() == Some("sqlite3"))
        .unwrap();
    assert_eq!(sqlite.class, ExecNeedClass::NativeBuild);
    assert!(sqlite.needs_execution);
    assert!(!sqlite.would_execute);
    assert_eq!(sqlite.sandbox, ExecSandboxProfile::PrebuildFetch);
    let plain = plan
        .entries
        .iter()
        .find(|e| e.name.as_deref() == Some("left-pad"))
        .unwrap();
    assert_eq!(plain.class, ExecNeedClass::ExtractionOnly);
    assert!(!plain.needs_execution);
}

#[test]
fn allowlisted_package_still_needs_enable_to_execute() {
    let g = graph_with(vec![pkg("node_modules/esbuild", "esbuild", true, false)]);
    let mut cfg = ExecutionConfig::default();
    cfg.allow_packages.push("esbuild".into());
    let plan = plan_execution_with_config(&g, Some(&cfg), &host(), "137");
    assert_eq!(plan.would_execute_count, 0);
    assert!(!plan.executed);
}

#[test]
fn missing_required_peer_blocks_adoption() {
    let mut ui = pkg("node_modules/ui-kit", "ui-kit", false, false);
    ui.peer_dependencies.insert("react".to_string(), "^18".to_string());
    let g = graph_with(vec![ui]);
    let plan = plan_execution_with_config(&g, None, &host(), "137");
    let a = assess_adoption(&g, &plan, None, &host());
    assert_eq!(a.verdict, AdoptionVerdict::Blocked);
}

#[test]
fn plan_entries_are_ordered_by_package_key() {
    let mut map = TextMap::new();
    map.insert("node_modules/a".to_string(), pkg("node_modules/z", "z", false, false));
    map.insert("node_modules/b".to_string(), pkg("node_modules/c", "c", false, false));
    map.insert("node_modules/m".to_string(), pkg("node_modules/m", "m", true, false));
    let g = DependencyGraph {
        lockfile_kind: LockfileKind::NpmPackageLock,
        lockfile_version: 3,
        root: PackageKey::root(),
        nodes: map,
        edges: Vec::new(),
    };
    let plan = plan_execution_with_config(&g, None, &host(), "137");
    let keys: Vec<&str> = plan.entries.iter().map(|e| e.package_key.as_str()).collect();
    assert_eq!(keys, vec!["node_modules/c", "node_modules/m", "node_modules/z"]);
    assert!(!plan.executed);
}
