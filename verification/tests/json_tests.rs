use weave::discovery::package_meta_of;
use weave::doctor::{
    doctor_report, ActiveOutcome, ConfigOutcome, DoctorFacts, DoctorSeverity, GitOutcome, LockfileOutcome,
    ProjectFacts, ProjectOutcome,
};
use weave::environment::{EnvironmentId, EnvironmentRecord, PlatformIdentity};
use weave::error::Error;
use weave::json::JsonValue;
use weave::lockfile_json::{lockfile_graph, lockfile_header_version, packages_entry_of};
use weave::prebuild::{prebuild_meta_of, HostPlatform};
use weave::status::{status_report, StatusFacts};
use weave::textmap::TextMap;

fn s(t: &str) -> JsonValue {
    JsonValue::Str(t.to_string())
}

fn obj(members: Vec<(&str, JsonValue)>) -> JsonValue {
    JsonValue::Object(members.into_iter().map(|(k, v)| (k.to_string(), v)).collect())
}

fn lock_v3() -> JsonValue {
    obj(vec![
        ("lockfileVersion", JsonValue::Number(Some(3))),
        (
            "packages",
            obj(vec![
                ("", obj(vec![("name", s("demo")), ("dependencies", obj(vec![("left-pad", s("^1.3.0"))]))])),
                (
                    "node_modules/left-pad",
                    obj(vec![
                        ("version", s("1.3.0")),
                        ("resolved", s("https://registry.npmjs.org/left-pad/-/left-pad-1.3.0.tgz")),
                        ("integrity", s("sha512-abc")),
                    ]),
                ),
            ]),
        ),
    ])
}

#[test]
fn lockfile_graph_reads_packages_format() {
    let g = lockfile_graph("package-lock.json", &lock_v3()).unwrap();
    assert_eq!(g.lockfile_version, 3);
    assert_eq!(g.package_count(), 1);
    let node = g.nodes.get("node_modules/left-pad").unwrap();
    assert_eq!(node.name.as_deref(), Some("left-pad"));
    assert_eq!(node.version.as_deref(), Some("1.3.0"));
    assert_eq!(g.edges.len(), 1);
}

#[test]
fn lockfile_graph_defaults_to_version_one_tree() {
    let doc = obj(vec![
        ("name", s("demo")),
        ("version", s("1.0.0")),
        (
            "dependencies",
            obj(vec![(
                "a",
                obj(vec![
                    ("version", s("1.0.0")),
                    ("dependencies", obj(vec![("b", obj(vec![("version", s("2.0.0"))]))])),
                ]),
            )]),
        ),
    ]);
    let g = lockfile_graph("package-lock.json", &doc).unwrap();
    assert_eq!(g.lockfile_version, 1);
    assert!(g.nodes.get("node_modules/a").is_some());
    assert_eq!(
        g.nodes.get("node_modules/a/node_modules/b").unwrap().version.as_deref(),
        Some("2.0.0")
    );
    assert_eq!(g.nodes.get("").unwrap().name.as_deref(), Some("demo"));
}

#[test]
fn lockfile_graph_rejects_unsupported_and_malformed() {
    let v4 = obj(vec![("lockfileVersion", JsonValue::Number(Some(4))), ("packages", obj(vec![]))]);
    match lockfile_graph("p.json", &v4) {
        Err(Error::UnsupportedLockfile { reason, .. }) => {
            assert_eq!(reason, "lockfileVersion 4 is not supported yet")
        }
        other => panic!("unexpected {other:?}"),
    }
    let no_packages = obj(vec![("lockfileVersion", JsonValue::Number(Some(2)))]);
    match lockfile_graph("p.json", &no_packages) {
        Err(Error::InvalidLockfile { reason, .. }) => assert_eq!(reason, "missing packages object"),
        other => panic!("unexpected {other:?}"),
    }
    let no_root = obj(vec![
        ("lockfileVersion", JsonValue::Number(Some(3))),
        ("packages", obj(vec![("node_modules/x", obj(vec![]))])),
    ]);
    match lockfile_graph("p.json", &no_root) {
        Err(Error::InvalidLockfile { reason, .. }) => {
            assert_eq!(reason, "packages map is missing the root entry \"\"")
        }
        other => panic!("unexpected {other:?}"),
    }
    let bad_entry = obj(vec![
        ("lockfileVersion", JsonValue::Number(Some(3))),
        ("packages", obj(vec![("", obj(vec![])), ("node_modules/x", obj(vec![("dev", s("yes"))]))])),
    ]);
    match lockfile_graph("p.json", &bad_entry) {
        Err(Error::InvalidLockfile { path, reason }) => {
            assert_eq!(path, "p.json");
            assert!(reason.starts_with("invalid packages[\"node_modules/x\"] entry"));
        }
        other => panic!("unexpected {other:?}"),
    }
}

#[test]
fn packages_entry_decodes_typed_fields() {
    let v = obj(vec![
        ("version", s("1.0.0")),
        ("cpu", JsonValue::Array(vec![s("x64"), s("arm64")])),
        ("os", s("linux")),
        ("bin", obj(vec![("tool", s("bin/tool.js"))])),
        ("peerDependenciesMeta", obj(vec![("react", obj(vec![("optional", JsonValue::Bool(true))]))])),
        ("hasInstallScript", JsonValue::Bool(true)),
        ("name", JsonValue::Null),
    ]);
    let e = packages_entry_of("p.json", "node_modules/x", &v).unwrap();
    assert_eq!(e.version.as_deref(), Some("1.0.0"));
    assert!(e.name.is_none());
    assert!(e.has_install_script);
    assert_eq!(e.peer_dependencies_meta.get("react"), Some(&true));
    assert!(packages_entry_of("p.json", "k", &s("not an object")).is_err());
    let wrong_map = obj(vec![("dependencies", obj(vec![("a", JsonValue::Number(Some(1)))]))]);
    assert!(packages_entry_of("p.json", "k", &wrong_map).is_err());
}

#[test]
fn prebuild_meta_reads_package_json() {
    let v = obj(vec![
        ("name", s("addon")),
        ("version", s("2.0.0")),
        ("scripts", obj(vec![("install", s("Prebuild-Install || node-gyp rebuild")), ("n", JsonValue::Number(Some(1)))])),
        (
            "weave",
            obj(vec![(
                "prebuildFetches",
                JsonValue::Array(vec![
                    obj(vec![("url", s("https://cdn.example.com/a.node")), ("output", s("prebuilds/a.node")), ("os", s("linux"))]),
                    obj(vec![("url", s("https://cdn.example.com/b.node"))]),
                ]),
            )]),
        ),
        ("binary", obj(vec![("module_name", s("addon")), ("napi_versions", JsonValue::Array(vec![JsonValue::Number(Some(3)), s("x"), JsonValue::Number(Some(8))]))])),
    ]);
    let m = prebuild_meta_of(&v);
    assert_eq!(m.name.as_deref(), Some("addon"));
    assert!(m.has_prebuild_install_script);
    assert_eq!(m.scripts.len(), 1);
    assert_eq!(m.weave_prebuilds.len(), 1);
    assert_eq!(m.weave_prebuilds[0].os.as_deref(), Some("linux"));
    assert_eq!(m.weave_prebuilds[0].integrity, "");
    assert_eq!(m.napi_versions, vec![3, 8]);
    assert_eq!(m.binary.unwrap().module_name.as_deref(), Some("addon"));
    let plain = prebuild_meta_of(&obj(vec![("napi_versions", JsonValue::Array(vec![JsonValue::Number(Some(4))]))]));
    assert_eq!(plain.napi_versions, vec![4]);
    assert!(!plain.has_prebuild_install_script);
    assert!(plain.binary.is_none());
}

#[test]
fn package_meta_reads_package_json() {
    let v = obj(vec![
        ("name", s("native-demo")),
        ("gypfile", JsonValue::Bool(true)),
        ("scripts", obj(vec![("install", s("node-gyp rebuild"))])),
        ("weave", obj(vec![("declaredOutputs", JsonValue::Array(vec![s("build/Release/addon.node"), JsonValue::Null]))])),
        ("binary", obj(vec![("module_path", s("./lib/binding"))])),
    ]);
    let m = package_meta_of(&v);
    assert_eq!(m.name.as_deref(), Some("native-demo"));
    assert!(m.gypfile);
    assert_eq!(m.scripts.get("install").map(|x| x.as_str()), Some("node-gyp rebuild"));
    assert_eq!(m.weave_declared_outputs, vec!["build/Release/addon.node".to_string()]);
    assert_eq!(m.binary.unwrap().module_dir.as_deref(), Some("./lib/binding"));
    let empty = package_meta_of(&JsonValue::Null);
    assert!(empty.name.is_none() && !empty.gypfile && empty.binary.is_none());
}

fn record(id: &str, label: Option<&str>, graph: &str) -> EnvironmentRecord {
    EnvironmentRecord {
        id: EnvironmentId::new(id.into()),
        graph_identity: graph.into(),
        platform: PlatformIdentity { os: "linux".into(), arch: "x86_64".into() },
        materialization_version: "4".into(),
        lockfile_version: 3,
        package_count: 2,
        label: label.map(|x| x.to_string()),
        owner: None,
        created_at: None,
        last_activated_at: None,
        artifacts: TextMap::new(),
    }
}

#[test]
fn status_report_summarises_environments() {
    let facts = StatusFacts {
        root: "/repo".into(),
        initialized: true,
        branch: Some("main".into()),
        head: Some("abc".into()),
        dirty: false,
        dependency_files_dirty: false,
        lockfile_kind: None,
        lockfile_path: Some("package-lock.json".into()),
        lockfile: Some(Ok((2, "g1".into()))),
        node_modules_present: true,
        environments: vec![record("e1", Some("main"), "g0"), record("e2", None, "g1")],
        active_environment: Some("e2".into()),
        leftover_candidate: false,
        leftover_backup: false,
    };
    let st = status_report(&facts);
    assert_eq!(st.environment.known_count, 2);
    assert_eq!(st.environment.branch_association.as_deref(), Some("e1"));
    assert!(!st.environment.environments[0].active);
    assert_eq!(st.environment.environments[0].matches_lockfile, Some(false));
    assert!(st.environment.environments[1].active);
    assert_eq!(st.environment.environments[1].matches_lockfile, Some(true));
    assert_eq!(st.dependency.package_count, Some(2));
    assert!(st.next_steps.contains(&"weave doctor --json".to_string()));
    assert!(!st.next_steps.contains(&"weave switch --json".to_string()));
}

#[test]
fn doctor_report_orders_findings() {
    let facts = DoctorFacts {
        start: "/start".into(),
        git: GitOutcome::Found { root: "/repo".into(), branch: None },
        project: ProjectOutcome::Found(ProjectFacts {
            package_json: true,
            lockfile: LockfileOutcome::Missing,
            initialized: true,
            config: ConfigOutcome::Loaded {
                store_path: "/store".into(),
                store_has_objects: false,
                artifact_findings: Vec::new(),
            },
            active: ActiveOutcome::Active { id: "e1".into(), record_ok: false },
        }),
        host: HostPlatform::from_rust("linux", "x86_64"),
        candidate: "/repo/.weave/candidate".into(),
        candidate_exists: true,
        backup: "/repo/.weave/backup".into(),
        backup_exists: false,
    };
    let r = doctor_report(facts);
    assert_eq!(r.root, "/repo");
    let checks: Vec<&str> = r.findings.iter().map(|f| f.check.as_str()).collect();
    assert_eq!(
        checks,
        vec!["git", "package-json", "lockfile", "weave-init", "store", "active-env", "candidate"]
    );
    assert_eq!(r.findings[0].message, "repository /repo (branch detached)");
    assert_eq!(r.findings[2].severity, DoctorSeverity::Error);
    assert_eq!(r.findings[5].message, "active pointer e1 has no environment record");
    assert!(r.adoption.is_none());
    let failed = doctor_report(DoctorFacts {
        start: "/start".into(),
        git: GitOutcome::Failed { message: "not a git repository".into() },
        project: ProjectOutcome::NotARepository,
        host: HostPlatform::from_rust("linux", "x86_64"),
        candidate: "c".into(),
        candidate_exists: false,
        backup: "b".into(),
        backup_exists: false,
    });
    assert_eq!(failed.root, "/start");
    assert_eq!(failed.findings.len(), 1);
}

#[test]
fn lockfile_header_version_is_read_strictly() {
    let v = obj(vec![("lockfileVersion", JsonValue::Number(Some(3)))]);
    assert_eq!(lockfile_header_version("p", &v).unwrap(), Some(3));
    assert_eq!(lockfile_header_version("p", &obj(vec![])).unwrap(), None);
    assert!(lockfile_header_version("p", &obj(vec![("lockfileVersion", JsonValue::Number(Some(1 << 40)))])).is_err());
    assert!(lockfile_header_version("p", &obj(vec![("lockfileVersion", s("3"))])).is_err());
}
