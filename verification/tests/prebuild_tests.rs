use weave::prebuild::NativePrebuildRequirement;
use weave::config::{ExecutionConfig, PrebuildConfig, PrebuildFetchSpec};
use weave::prebuild::{
    prebuild_install_hint, render_prebuild_suggestion_toml, resolve_from_parts,
    suggestable_prebuild_fetches, BinaryMeta, HostPlatform, NativePrebuildReport, PrebuildFiles,
    PrebuildMeta, PrebuildPatternKind, PrebuildResolveStatus, WeavePrebuild,
};
use weave::suggest::{merge_suggestion_into_config, suggest_execution_policy_with_prebuilds};
use weave::textmap::TextMap;

const AUTHOR_SRI: &str = "sha256-S2RVnWoXKGSQi+m2nuQsFbkM6x6AqX/GsamehuwdrMs=";

fn host() -> HostPlatform {
    HostPlatform::from_rust("linux", "x86_64")
}

fn empty_cfg() -> ExecutionConfig {
    ExecutionConfig::default()
}

fn scripts(pairs: &[(&str, &str)]) -> TextMap<String> {
    let mut m = TextMap::new();
    for (k, v) in pairs {
        m.insert(k.to_string(), v.to_string());
    }
    m
}

fn files(dir: &str) -> PrebuildFiles {
    PrebuildFiles {
        dir_name: Some(dir.into()),
        install_js: None,
        scripts_install_js: None,
        has_prebuilds_dir: false,
    }
}

fn meta(name: &str, scripts: TextMap<String>) -> PrebuildMeta {
    let hint = prebuild_install_hint(&scripts);
    PrebuildMeta {
        name: Some(name.into()),
        version: Some("1.0.0".into()),
        scripts,
        binary: None,
        weave_prebuilds: Vec::new(),
        has_prebuild_install_script: hint,
        napi_versions: Vec::new(),
    }
}

/// A node-pre-gyp package whose `binary` field names an HTTPS host.
fn node_pre_gyp_like(cfg: &ExecutionConfig) -> NativePrebuildReport {
    let mut m = meta(
        "node-pre-gyp-like",
        scripts(&[("install", "node-pre-gyp install --fallback-to-build")]),
    );
    m.binary = Some(BinaryMeta {
        module_name: Some("binding".into()),
        module_dir: Some("./lib/binding/{node_abi}-{platform}-{arch}".into()),
        remote_path: Some("v{version}/".into()),
        package_name: Some("{node_abi}-{platform}-{arch}.tar.gz".into()),
        host: Some("https://cdn.example.com".into()),
    });
    resolve_from_parts(&m, &files("node-pre-gyp-like"), cfg, &host(), "137")
}

/// A package that declares its prebuild with URL, output and SRI.
fn author_sri(cfg: &ExecutionConfig) -> NativePrebuildReport {
    let mut m = meta("author-sri-pkg", TextMap::new());
    m.weave_prebuilds = vec![WeavePrebuild {
        url: "https://cdn.example.com/author-sri-pkg/linux-x64-137.node".into(),
        integrity: AUTHOR_SRI.into(),
        output: "prebuilds/linux-x64/addon.node".into(),
        node_abi: Some("137".into()),
        os: Some("linux".into()),
        cpu: Some("x64".into()),
    }];
    resolve_from_parts(&m, &files("author-sri"), cfg, &host(), "137")
}

fn prebuild_install_like() -> NativePrebuildReport {
    let m = meta(
        "prebuild-install-like",
        scripts(&[("install", "prebuild-install || node-gyp rebuild")]),
    );
    resolve_from_parts(&m, &files("prebuild-install-like"), &empty_cfg(), &host(), "137")
}

fn esbuild_download() -> NativePrebuildReport {
    let m = meta("esbuild-download", scripts(&[("postinstall", "node install.js")]));
    let mut f = files("esbuild-download");
    f.install_js = Some(
        "const url = \"https://registry.example.com/esbuild/-/linux-x64.tgz\";\ndownload(url);\n"
            .into(),
    );
    resolve_from_parts(&m, &f, &empty_cfg(), &host(), "137")
}

fn sharp_like() -> NativePrebuildReport {
    let m = meta("sharp", scripts(&[("install", "node install/check")]));
    resolve_from_parts(&m, &files("sharp-like"), &empty_cfg(), &host(), "137")
}

#[test]
fn resolves_node_pre_gyp_needs_integrity() {
    let report = node_pre_gyp_like(&empty_cfg());
    assert!(!report.requirements.is_empty());
    let req = &report.requirements[0];
    assert_eq!(req.pattern, PrebuildPatternKind::NodePreGypBinary);
    assert!(
        matches!(
            req.status,
            PrebuildResolveStatus::NeedsIntegrity | PrebuildResolveStatus::UnresolvedTokens
        ),
        "{:?}",
        req
    );
    assert!(req.url.as_ref().unwrap().starts_with("https://"));
    assert!(req.output.as_ref().unwrap().ends_with(".node"));
    assert!(report.needs_manual_policy);
}

#[test]
fn node_pre_gyp_template_is_substituted() {
    let report = node_pre_gyp_like(&empty_cfg());
    let req = &report.requirements[0];
    assert_eq!(req.status, PrebuildResolveStatus::NeedsIntegrity);
    assert_eq!(
        req.url.as_deref(),
        Some("https://cdn.example.com/v1.0.0/137-linux-x64.tar.gz")
    );
    assert_eq!(req.output.as_deref(), Some("lib/binding/137-linux-x64/binding.node"));
    assert_eq!(req.host.as_deref(), Some("cdn.example.com"));
}

#[test]
fn weave_author_prebuild_is_suggestable() {
    let report = author_sri(&empty_cfg());
    let req = report
        .requirements
        .iter()
        .find(|r| r.pattern == PrebuildPatternKind::PackageWeavePrebuild)
        .expect("weave prebuild");
    assert_eq!(req.status, PrebuildResolveStatus::Suggestable);
    let drafts = suggestable_prebuild_fetches(&report, &empty_cfg());
    assert_eq!(drafts.len(), 1);
    assert!(!drafts[0].spec.integrity.is_empty());
    let toml = render_prebuild_suggestion_toml(&drafts, &Vec::new());
    assert!(toml.contains("allow_hosts"));
    assert!(toml.contains("[[execution.prebuild.fetches]]"));
    assert!(!toml.contains("enabled = true"));
}

#[test]
fn never_auto_approves_without_integrity() {
    let report = node_pre_gyp_like(&empty_cfg());
    assert!(suggestable_prebuild_fetches(&report, &empty_cfg()).is_empty());
}

#[test]
fn opaque_prebuild_install_explains_gap() {
    let report = prebuild_install_like();
    assert!(report.needs_manual_policy);
    assert!(report.requirements.iter().any(|r| {
        r.pattern == PrebuildPatternKind::PrebuildInstallLayout
            && r.status == PrebuildResolveStatus::Opaque
    }));
}

#[test]
fn https_literal_without_output_is_opaque_or_needs_integrity() {
    let report = esbuild_download();
    assert!(report.needs_manual_policy);
    assert!(report.requirements.iter().any(|r| {
        matches!(
            r.pattern,
            PrebuildPatternKind::InstallScriptHttpsLiteral | PrebuildPatternKind::KnownPackagePattern
        )
    }));
}

#[test]
fn configured_fetch_marked_configured() {
    let mut declared = TextMap::new();
    declared.insert(
        "author-sri-pkg".to_string(),
        vec!["prebuilds/linux-x64/addon.node".to_string()],
    );
    let cfg = ExecutionConfig {
        profile: "prebuild-fetch".into(),
        declared_outputs: declared,
        prebuild: PrebuildConfig {
            allow_hosts: vec!["cdn.example.com".into()],
            fetches: vec![PrebuildFetchSpec {
                package: "author-sri-pkg".into(),
                url: "https://cdn.example.com/author-sri-pkg/linux-x64-137.node".into(),
                integrity: AUTHOR_SRI.into(),
                output: "prebuilds/linux-x64/addon.node".into(),
                node_abi: Some("137".into()),
                os: Some("linux".into()),
                cpu: Some("x64".into()),
            }],
        },
        ..ExecutionConfig::default()
    };
    assert!(cfg.validate().is_ok(), "{:?}", cfg.validate());
    let report = author_sri(&cfg);
    assert!(report
        .requirements
        .iter()
        .any(|r| r.status == PrebuildResolveStatus::Configured));
}

#[test]
fn http_literal_blocked() {
    let mut m = meta("bad-http", TextMap::new());
    m.weave_prebuilds = vec![WeavePrebuild {
        url: "http://cdn.example.com/x.node".into(),
        integrity: AUTHOR_SRI.into(),
        output: "prebuilds/x.node".into(),
        node_abi: None,
        os: None,
        cpu: None,
    }];
    let report = resolve_from_parts(&m, &files("bad-http"), &empty_cfg(), &host(), "137");
    assert!(report
        .requirements
        .iter()
        .any(|r| r.status == PrebuildResolveStatus::BlockedUnsafe));
    assert!(suggestable_prebuild_fetches(&report, &empty_cfg()).is_empty());
}

#[test]
fn sharp_like_is_opaque_manual_policy() {
    let report = sharp_like();
    assert!(report.needs_manual_policy);
    assert!(report.requirements.iter().any(|r| {
        r.pattern == PrebuildPatternKind::KnownPackagePattern
            && r.status == PrebuildResolveStatus::Opaque
    }));
    assert!(suggestable_prebuild_fetches(&report, &empty_cfg()).is_empty());
}

#[test]
fn suggestion_toml_never_enables_or_opens_network() {
    let report = author_sri(&empty_cfg());
    let drafts = suggestable_prebuild_fetches(&report, &empty_cfg());
    assert!(!drafts.is_empty());
    let toml = render_prebuild_suggestion_toml(&drafts, &Vec::new());
    assert!(!toml.contains("enabled = true"));
    assert!(!toml.contains("profile = \"open\""));
    assert!(toml.contains("REVIEW"));
}

#[test]
fn nothing_native_means_no_requirements() {
    let m = meta("left-pad", TextMap::new());
    let report = resolve_from_parts(&m, &files("left-pad"), &empty_cfg(), &host(), "137");
    assert!(report.requirements.is_empty());
    assert!(!report.needs_manual_policy);
    assert_eq!(report.package, "left-pad");
    assert_eq!(report.version.as_deref(), Some("1.0.0"));
}

#[test]
fn prebuild_suggestion_merge_never_enables_or_opens_profile() {
    let report = author_sri(&empty_cfg());
    let mut cfg = ExecutionConfig::default();
    assert_eq!(cfg.profile, "offline");
    let suggestion = suggest_execution_policy_with_prebuilds(&Vec::new(), &vec![report], &cfg);
    assert!(!suggestion.prebuild_fetches.is_empty());
    assert!(!suggestion.enabled_suggestion);
    merge_suggestion_into_config(&mut cfg, &suggestion);
    assert!(!cfg.enabled);
    assert_eq!(cfg.profile, "offline");
    assert!(!cfg.prebuild.fetches.is_empty());
    assert!(cfg
        .prebuild
        .allow_hosts
        .iter()
        .any(|h| h == "cdn.example.com"));
    assert!(!suggestion.toml_fragment.contains("enabled = true"));
}

#[test]
fn http_suggestable_requirement_yields_no_draft() {
    let report = NativePrebuildReport {
        package: "demo".into(),
        version: None,
        requirements: vec![NativePrebuildRequirement {
            package: "demo".into(),
            pattern: PrebuildPatternKind::PackageWeavePrebuild,
            status: PrebuildResolveStatus::Suggestable,
            url: Some("http://cdn.example.com/x.node".into()),
            host: None,
            output: Some("prebuilds/x.node".into()),
            integrity: Some("sha256-AAAA".into()),
            node_abi: None,
            os: None,
            cpu: None,
            unresolved_tokens: vec![],
            reason: String::new(),
        }],
        needs_manual_policy: false,
    };
    assert!(suggestable_prebuild_fetches(&report, &empty_cfg()).is_empty());
    let mut https = report;
    https.requirements[0].url = Some("https://cdn.example.com/x.node".into());
    let drafts = suggestable_prebuild_fetches(&https, &empty_cfg());
    assert_eq!(drafts.len(), 1);
    assert_eq!(drafts[0].host, "cdn.example.com");
}
