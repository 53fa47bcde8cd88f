use weave::audit::{platform_fit, PeerAuditStatus, PlatformFit};
use weave::error::Error;
use weave::lockfile::{
    graph_from_packages, lockfile_format, BinField, DependencyGraph, EdgeKind, LockfileFormat,
    PackageNode, PackageSource, PackagesEntry, StringOrVec,
};
use weave::lockfile_v1::{graph_from_v1, V1Dep};
use weave::prebuild::HostPlatform;
use weave::textmap::TextMap;

fn map(pairs: &[(&str, &str)]) -> TextMap<String> {
    let mut m = TextMap::new();
    for (k, v) in pairs {
        m.insert(k.to_string(), v.to_string());
    }
    m
}

fn entry(name: Option<&str>, version: &str, resolved: Option<&str>) -> PackagesEntry {
    PackagesEntry {
        name: name.map(|s| s.to_string()),
        version: Some(version.into()),
        resolved: resolved.map(|s| s.to_string()),
        integrity: None,
        dependencies: TextMap::new(),
        dev_dependencies: TextMap::new(),
        optional_dependencies: TextMap::new(),
        peer_dependencies: TextMap::new(),
        peer_dependencies_meta: TextMap::new(),
        has_install_script: false,
        optional: false,
        dev: false,
        peer: false,
        link: false,
        cpu: StringOrVec::Absent,
        os: StringOrVec::Absent,
        bundled_dependencies: Vec::new(),
        bundle_dependencies_alias: Vec::new(),
        bin: BinField::Absent,
    }
}

fn registry(name: &str, version: &str) -> PackagesEntry {
    entry(None, version, Some(&format!("https://registry.npmjs.org/{name}/-/{name}-{version}.tgz")))
}

fn root(deps: &[(&str, &str)]) -> PackagesEntry {
    let mut e = entry(Some("demo"), "1.0.0", None);
    e.dependencies = map(deps);
    e
}

fn graph(version: u32, entries: Vec<(&str, PackagesEntry)>) -> DependencyGraph {
    let es = entries.into_iter().map(|(k, e)| (k.to_string(), e)).collect();
    graph_from_packages("package-lock.json", version, Some(es)).unwrap()
}

fn node<'a>(g: &'a DependencyGraph, key: &str) -> &'a PackageNode {
    g.nodes.get(key).unwrap()
}

fn has_edge(g: &DependencyGraph, from: &str, to: &str) -> bool {
    g.edges.iter().any(|e| e.from.as_str() == from && e.to.as_str() == to)
}

#[test]
fn flat_tree() {
    let g = graph(
        3,
        vec![
            ("", root(&[("left-pad", "^1.3.0"), ("ms", "^2.1.3")])),
            ("node_modules/left-pad", registry("left-pad", "1.3.0")),
            ("node_modules/ms", registry("ms", "2.1.3")),
        ],
    );
    assert_eq!(g.lockfile_version, 3);
    assert_eq!(g.package_count(), 2);
    assert!(g.nodes.contains_key("node_modules/left-pad"));
    assert!(g.nodes.contains_key("node_modules/ms"));
    assert!(has_edge(&g, "", "node_modules/ms"));
    assert_eq!(node(&g, "node_modules/ms").name.as_deref(), Some("ms"));
}

#[test]
fn nested_versions_keep_distinct_nodes() {
    let mut a = registry("parent-a", "1.0.0");
    a.dependencies = map(&[("shared", "^1.0.0")]);
    let mut b = registry("parent-b", "1.0.0");
    b.dependencies = map(&[("shared", "^2.0.0")]);
    let g = graph(
        3,
        vec![
            ("", root(&[("parent-a", "^1"), ("parent-b", "^1")])),
            ("node_modules/parent-a", a),
            ("node_modules/parent-b", b),
            ("node_modules/shared", registry("shared", "1.0.0")),
            ("node_modules/parent-b/node_modules/shared", registry("shared", "2.0.0")),
        ],
    );
    assert_eq!(g.package_count(), 4);
    assert_eq!(node(&g, "node_modules/shared").version.as_deref(), Some("1.0.0"));
    assert_eq!(
        node(&g, "node_modules/parent-b/node_modules/shared").version.as_deref(),
        Some("2.0.0")
    );
    assert!(g.edges.iter().any(|e| e.from.as_str() == "node_modules/parent-b"
        && e.to.as_str() == "node_modules/parent-b/node_modules/shared"
        && e.name == "shared"));
    assert!(has_edge(&g, "node_modules/parent-a", "node_modules/shared"));
}

#[test]
fn peer_dependencies_create_peer_edges() {
    let mut ui = registry("ui-kit", "1.0.0");
    ui.peer_dependencies = map(&[("react", "^18")]);
    let g = graph(
        3,
        vec![
            ("", root(&[("ui-kit", "^1"), ("react", "^18")])),
            ("node_modules/react", registry("react", "18.2.0")),
            ("node_modules/ui-kit", ui),
        ],
    );
    assert!(node(&g, "node_modules/ui-kit").peer_dependencies.contains_key("react"));
    assert!(g.edges.iter().any(|e| e.kind == EdgeKind::Peer
        && e.from.as_str() == "node_modules/ui-kit"
        && e.to.as_str() == "node_modules/react"));
    let audit = g.audit_peers();
    assert!(audit
        .iter()
        .any(|f| f.peer == "react" && matches!(f.status, PeerAuditStatus::Satisfied { .. })));
}

#[test]
fn missing_required_peer_is_audited() {
    let mut ui = registry("ui-kit", "1.0.0");
    ui.peer_dependencies = map(&[("react", "^18")]);
    let g = graph(3, vec![("", root(&[("ui-kit", "^1")])), ("node_modules/ui-kit", ui)]);
    let audit = g.audit_peers();
    assert!(audit
        .iter()
        .any(|f| matches!(f.status, PeerAuditStatus::MissingRequired) && f.peer == "react"));
}

#[test]
fn optional_missing_peer_is_allowed() {
    let mut plugin = registry("plugin", "1.0.0");
    plugin.peer_dependencies = map(&[("host-api", "*")]);
    let mut meta = TextMap::new();
    meta.insert("host-api".to_string(), true);
    plugin.peer_dependencies_meta = meta;
    let g = graph(3, vec![("", root(&[("plugin", "^1")])), ("node_modules/plugin", plugin)]);
    let audit = g.audit_peers();
    assert!(audit
        .iter()
        .any(|f| matches!(f.status, PeerAuditStatus::MissingOptional) && f.peer == "host-api"));
    assert!(!audit.iter().any(|f| matches!(f.status, PeerAuditStatus::MissingRequired)));
}

#[test]
fn optional_platform_constraints_parsed() {
    let mut fsevents = registry("fsevents", "2.3.3");
    fsevents.optional = true;
    fsevents.os = StringOrVec::One("darwin".into());
    let mut native = registry("linux-only-native", "1.0.0");
    native.os = StringOrVec::Many(vec!["linux".into()]);
    let g = graph(
        3,
        vec![
            ("", root(&[])),
            ("node_modules/fsevents", fsevents),
            ("node_modules/linux-only-native", native),
        ],
    );
    let fs = node(&g, "node_modules/fsevents");
    assert!(fs.optional);
    assert_eq!(fs.os, vec!["darwin".to_string()]);
    let linux = HostPlatform::from_rust("linux", "x86_64");
    assert_eq!(platform_fit(fs, &linux), PlatformFit::SkipOptional);
    let native = node(&g, "node_modules/linux-only-native");
    assert_eq!(platform_fit(native, &linux), PlatformFit::Compatible);
}

#[test]
fn optional_dependencies_and_platform_constraints() {
    let mut nice = registry("nice-native", "1.0.0");
    nice.optional = true;
    nice.os = StringOrVec::Many(vec!["linux".into()]);
    nice.cpu = StringOrVec::Many(vec!["x64".into()]);
    let mut r = root(&[]);
    r.optional_dependencies = map(&[("nice-native", "^1")]);
    let g = graph(3, vec![("", r), ("node_modules/nice-native", nice)]);
    let nice = node(&g, "node_modules/nice-native");
    assert!(nice.optional);
    assert_eq!(nice.os, vec!["linux".to_string()]);
    assert_eq!(nice.cpu, vec!["x64".to_string()]);
    assert!(g.edges.iter().any(|e| e.kind == EdgeKind::Optional && e.name == "nice-native"));
}

#[test]
fn native_addon_heuristic() {
    let mut sqlite = registry("sqlite3", "5.1.7");
    sqlite.has_install_script = true;
    sqlite.dependencies = map(&[("node-addon-api", "^7")]);
    let g = graph(3, vec![("", root(&[("sqlite3", "^5")])), ("node_modules/sqlite3", sqlite)]);
    let sqlite = node(&g, "node_modules/sqlite3");
    assert!(sqlite.has_install_script);
    assert!(sqlite.likely_native);
}

#[test]
fn lifecycle_scripts_flag() {
    let mut esbuild = registry("esbuild", "0.20.0");
    esbuild.has_install_script = true;
    let g = graph(
        3,
        vec![
            ("", root(&[("esbuild", "^0.20")])),
            ("node_modules/esbuild", esbuild),
            ("node_modules/ms", registry("ms", "2.1.3")),
        ],
    );
    let scripted: Vec<&str> = (0..g.nodes.len())
        .map(|i| g.nodes.value_at(i))
        .filter(|n| n.has_install_script)
        .filter_map(|n| n.name.as_deref())
        .collect();
    assert!(scripted.contains(&"esbuild"));
    assert!(!scripted.contains(&"ms"));
}

#[test]
fn monorepo_workspace_and_link_nodes() {
    let mut app_link = entry(None, "1.0.0", Some("packages/app"));
    app_link.link = true;
    let mut lib_link = entry(None, "1.0.0", Some("packages/lib"));
    lib_link.link = true;
    let g = graph(
        3,
        vec![
            ("", root(&[])),
            ("node_modules/@demo/app", app_link),
            ("node_modules/@demo/lib", lib_link),
            ("packages/app", entry(Some("@demo/app"), "1.0.0", None)),
            ("packages/lib", entry(Some("@demo/lib"), "1.0.0", None)),
        ],
    );
    assert!(g.nodes.contains_key("packages/app"));
    assert!(g.nodes.contains_key("packages/lib"));
    let link = node(&g, "node_modules/@demo/app");
    assert!(link.is_link);
    assert!(matches!(&link.source, PackageSource::Link { target } if target == "packages/app"));
    let ws = node(&g, "packages/app");
    assert!(ws.is_workspace);
    assert_eq!(ws.name.as_deref(), Some("@demo/app"));
    assert!(matches!(ws.source, PackageSource::Workspace));
}

#[test]
fn workspace_packages_lockfile_v2() {
    let g = graph(2, vec![("", root(&[])), ("packages/ui", entry(Some("@acme/ui"), "0.1.0", None))]);
    assert_eq!(g.lockfile_version, 2);
    let ui = node(&g, "packages/ui");
    assert_eq!(ui.name.as_deref(), Some("@acme/ui"));
    assert!(ui.is_workspace);
}

#[test]
fn symlinked_local_package() {
    let mut tool = entry(None, "1.0.0", Some("file:tools/local-tool"));
    tool.link = true;
    let g = graph(3, vec![("", root(&[])), ("node_modules/local-tool", tool)]);
    let tool = node(&g, "node_modules/local-tool");
    assert!(tool.is_link);
    assert!(matches!(tool.source, PackageSource::Path { .. } | PackageSource::Link { .. }));
    assert_eq!(tool.name.as_deref(), Some("local-tool"));
}

#[test]
fn unusual_scoped_and_bundled_layout() {
    let mut scoped = registry("pkg", "1.0.0");
    scoped.bundled_dependencies = vec!["nested-bundle".into(), "a-bundle".into()];
    scoped.bundle_dependencies_alias = vec!["nested-bundle".into()];
    let g = graph(
        3,
        vec![
            ("", root(&[])),
            ("node_modules/@scoped/pkg", scoped),
            ("node_modules/weird.name", registry("weird.name", "0.0.1")),
        ],
    );
    assert!(g.nodes.contains_key("node_modules/@scoped/pkg"));
    assert!(g.nodes.contains_key("node_modules/weird.name"));
    let scoped = node(&g, "node_modules/@scoped/pkg");
    assert!(scoped.bundled_dependencies.iter().any(|b| b == "nested-bundle"));
    assert_eq!(scoped.bundled_dependencies, vec!["a-bundle".to_string(), "nested-bundle".to_string()]);
    assert_eq!(scoped.name.as_deref(), Some("@scoped/pkg"));
}

fn v1(version: &str, required: &[(&str, &str)], nested: Vec<(&str, V1Dep)>) -> V1Dep {
    V1Dep {
        version: Some(version.into()),
        resolved: Some(format!("https://registry.npmjs.org/x/-/x-{version}.tgz")),
        integrity: None,
        optional: false,
        dev: false,
        required: map(required),
        bin: BinField::Absent,
        dependencies: nested.into_iter().map(|(k, d)| (k.to_string(), d)).collect(),
    }
}

#[test]
fn lockfile_v1_nested_tree() {
    let child = v1("1.0.0", &[], Vec::new());
    let parent = v1("2.0.0", &[("child", "^1.0.0")], vec![("child", child)]);
    let ms = v1("2.1.3", &[], Vec::new());
    let g = graph_from_v1(
        Some("demo".into()),
        Some("1.0.0".into()),
        vec![("ms".to_string(), ms), ("parent".to_string(), parent)],
    );
    assert_eq!(g.lockfile_version, 1);
    assert!(g.nodes.contains_key("node_modules/ms"));
    assert!(g.nodes.contains_key("node_modules/parent"));
    assert!(g.nodes.contains_key("node_modules/parent/node_modules/child"));
    assert!(g.edges.iter().any(|e| e.from.as_str() == "node_modules/parent"
        && e.to.as_str() == "node_modules/parent/node_modules/child"));
    let root = node(&g, "");
    assert_eq!(root.dependencies.get("ms").map(String::as_str), Some("2.1.3"));
    assert!(root.is_workspace);
    assert!(!root.likely_native);
    assert_eq!(g.package_count(), 3);
    assert!(has_edge(&g, "", "node_modules/parent"));
}

#[test]
fn lockfile_v1_root_ranges_and_bins() {
    let mut cli = v1("1.0.0", &[], Vec::new());
    cli.version = None;
    cli.bin = BinField::Path("cli.js".into());
    cli.resolved = Some("file:../cli".into());
    let g = graph_from_v1(None, None, vec![("@scope/demo-cli".to_string(), cli)]);
    let root = node(&g, "");
    assert_eq!(root.dependencies.get("@scope/demo-cli").map(String::as_str), Some("*"));
    let cli = node(&g, "node_modules/@scope/demo-cli");
    assert_eq!(cli.bin.get("demo-cli").map(String::as_str), Some("cli.js"));
    assert!(cli.is_link);
    assert!(matches!(&cli.source, PackageSource::Path { path } if path == "../cli"));
}

#[test]
fn bin_links_parsed_from_lockfile() {
    let mut demo = registry("demo-cli", "1.0.0");
    demo.bin = BinField::Path("cli.js".into());
    let mut multi = registry("multi-bin", "1.0.0");
    multi.bin = BinField::Table(map(&[("one", "bin/one.js"), ("two", "bin/two.js")]));
    let mut scoped = registry("tool", "1.0.0");
    scoped.bin = BinField::Table(map(&[("scope-tool", "bin/tool.js")]));
    let mut nested = registry("nested-cli", "1.0.0");
    nested.bin = BinField::Path("index.js".into());
    let g = graph(
        3,
        vec![
            ("", root(&[])),
            ("node_modules/demo-cli", demo),
            ("node_modules/multi-bin", multi),
            ("node_modules/@scope/tool", scoped),
            ("node_modules/parent", registry("parent", "1.0.0")),
            ("node_modules/parent/node_modules/nested-cli", nested),
        ],
    );
    let demo = node(&g, "node_modules/demo-cli");
    assert_eq!(demo.bin.get("demo-cli").map(String::as_str), Some("cli.js"));
    assert_eq!(node(&g, "node_modules/multi-bin").bin.len(), 2);
    assert!(node(&g, "node_modules/@scope/tool").bin.contains_key("scope-tool"));
    assert!(node(&g, "node_modules/parent/node_modules/nested-cli").bin.contains_key("nested-cli"));
}

#[test]
fn file_deps_are_path_sources() {
    let g = graph(
        3,
        vec![("", root(&[])), ("node_modules/local-lib", entry(None, "1.0.0", Some("file:../local-lib")))],
    );
    assert!(matches!(node(&g, "node_modules/local-lib").source, PackageSource::Path { .. }));
}

#[test]
fn workspaces_resolve_fixture_has_links() {
    let g = graph(
        3,
        vec![
            ("", root(&[])),
            ("node_modules/@acme/a", entry(None, "1.0.0", Some("link:packages/a"))),
            ("packages/a", entry(Some("@acme/a"), "1.0.0", None)),
        ],
    );
    let a = node(&g, "node_modules/@acme/a");
    assert!(a.is_link);
    assert!(matches!(a.source, PackageSource::Link { .. }));
}

#[test]
fn missing_packages_or_root_is_invalid() {
    let err = graph_from_packages("package-lock.json", 3, None).unwrap_err();
    assert!(matches!(err, Error::InvalidLockfile { .. }));
    assert_eq!(err.reason(), "missing packages object");
    let es = vec![("node_modules/ms".to_string(), registry("ms", "2.1.3"))];
    let err = graph_from_packages("package-lock.json", 3, Some(es)).unwrap_err();
    assert_eq!(err.reason(), "packages map is missing the root entry \"\"");
}

#[test]
fn lockfile_versions_select_format() {
    assert_eq!(lockfile_format("p", 1).unwrap(), LockfileFormat::Nested);
    assert_eq!(lockfile_format("p", 3).unwrap(), LockfileFormat::Packages);
    let err = lockfile_format("p", 4).unwrap_err();
    assert_eq!(err.reason(), "lockfileVersion 4 is not supported yet");
}
