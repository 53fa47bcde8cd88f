use weave::config::{parse_https_host, ExecutionConfig, PrebuildConfig, PrebuildFetchSpec, ProjectConfig};
use weave::integrity::Integrity;
use weave::textmap::TextMap;

fn outputs(pkg: &str, paths: &[&str]) -> TextMap<Vec<String>> {
    let mut m = TextMap::new();
    m.insert(pkg.to_string(), paths.iter().map(|p| p.to_string()).collect());
    m
}

#[test]
fn execution_defaults_disabled() {
    let cfg = ProjectConfig::new("/tmp/store");
    assert!(!cfg.execution.is_enabled());
    assert_eq!(cfg.execution.profile, "offline");
    assert!(cfg.execution.allow_packages.is_empty());
    assert!(!cfg.execution.allows_prebuild_network());
}

#[test]
fn rejects_open_profile() {
    let cfg = ExecutionConfig {
        profile: "open".into(),
        ..ExecutionConfig::default()
    };
    assert!(cfg.validate().is_err());
}

#[test]
fn accepts_prebuild_fetch_profile_with_allowlist() {
    let sri = Integrity::sha256_sri(b"fixture-bytes").raw;
    let cfg = ExecutionConfig {
        profile: "prebuild-fetch".into(),
        allow_packages: vec!["demo".into()],
        declared_outputs: outputs("demo", &["prebuilds/x.node"]),
        prebuild: PrebuildConfig {
            allow_hosts: vec!["cdn.example.com".into()],
            fetches: vec![PrebuildFetchSpec {
                package: "demo".into(),
                url: "https://cdn.example.com/x.node".into(),
                integrity: sri,
                output: "prebuilds/x.node".into(),
                node_abi: Some("137".into()),
                os: Some("linux".into()),
                cpu: Some("x64".into()),
            }],
        },
        ..ExecutionConfig::default()
    };
    assert!(cfg.validate().is_ok(), "{:?}", cfg.validate());
    assert!(cfg.allows_prebuild_network());
}

#[test]
fn rejects_fetch_host_not_allowlisted() {
    let sri = Integrity::sha256_sri(b"x").raw;
    let cfg = ExecutionConfig {
        profile: "prebuild-fetch".into(),
        declared_outputs: outputs("demo", &["out.node"]),
        prebuild: PrebuildConfig {
            allow_hosts: vec!["cdn.example.com".into()],
            fetches: vec![PrebuildFetchSpec {
                package: "demo".into(),
                url: "https://evil.example/x.node".into(),
                integrity: sri,
                output: "out.node".into(),
                node_abi: None,
                os: None,
                cpu: None,
            }],
        },
        ..ExecutionConfig::default()
    };
    assert!(cfg.validate().is_err());
}

#[test]
fn rejects_http_url() {
    let sri = Integrity::sha256_sri(b"x").raw;
    let cfg = ExecutionConfig {
        profile: "prebuild-fetch".into(),
        declared_outputs: outputs("demo", &["out.node"]),
        prebuild: PrebuildConfig {
            allow_hosts: vec!["cdn.example.com".into()],
            fetches: vec![PrebuildFetchSpec {
                package: "demo".into(),
                url: "http://cdn.example.com/x.node".into(),
                integrity: sri,
                output: "out.node".into(),
                node_abi: None,
                os: None,
                cpu: None,
            }],
        },
        ..ExecutionConfig::default()
    };
    assert!(cfg.validate().unwrap_err().contains("https"));
}

#[test]
fn default_config_validates_and_lists_install_script() {
    let cfg = ExecutionConfig::default();
    assert!(cfg.validate().is_ok());
    assert_eq!(cfg.allow_scripts, vec!["install".to_string()]);
    assert!(cfg.outputs_for("anything").is_empty());
    assert!(!cfg.package_allowed("anything"));
}

#[test]
fn outputs_and_fetches_are_looked_up_by_package() {
    let cfg = ExecutionConfig {
        allow_packages: vec!["demo".into()],
        declared_outputs: outputs("demo", &["a.node", "b.node"]),
        prebuild: PrebuildConfig {
            allow_hosts: vec!["cdn.example.com".into()],
            fetches: vec![
                PrebuildFetchSpec {
                    package: "demo".into(),
                    url: "https://cdn.example.com/a.node".into(),
                    integrity: Integrity::sha256_sri(b"a").raw,
                    output: "a.node".into(),
                    node_abi: None,
                    os: None,
                    cpu: None,
                },
                PrebuildFetchSpec {
                    package: "other".into(),
                    url: "https://cdn.example.com/o.node".into(),
                    integrity: Integrity::sha256_sri(b"o").raw,
                    output: "o.node".into(),
                    node_abi: None,
                    os: None,
                    cpu: None,
                },
            ],
        },
        ..ExecutionConfig::default()
    };
    assert_eq!(cfg.outputs_for("demo"), vec!["a.node".to_string(), "b.node".to_string()]);
    assert!(cfg.package_allowed("demo"));
    let f = cfg.prebuild_fetches_for("demo");
    assert_eq!(f.len(), 1);
    assert_eq!(f[0].url, "https://cdn.example.com/a.node");
}

#[test]
fn parses_https_hosts_and_rejects_others() {
    assert_eq!(
        parse_https_host("https://User@CDN.Example.com:443/x").unwrap(),
        ("https".to_string(), "cdn.example.com".to_string())
    );
    assert_eq!(parse_https_host("cdn.example.com/x").unwrap_err(), "URL must include a scheme");
    assert!(parse_https_host("ftp://x/y").unwrap_err().starts_with("unsupported URL scheme"));
    assert_eq!(parse_https_host("https:///x").unwrap_err(), "URL missing host");
}

fn loaded(version: u32, store: &str, mat: &str) -> ProjectConfig {
    ProjectConfig {
        version,
        store_path: store.into(),
        materialization_version: mat.into(),
        execution: ExecutionConfig::default(),
    }
}

#[test]
fn rejects_future_config_version() {
    let err = loaded(99, "/tmp", "1").migrate(".weave/config.toml").unwrap_err();
    assert!(err.reason().contains("newer"));
}

#[test]
fn migrates_missing_version_with_warning() {
    let (cfg, warnings) = loaded(0, "/tmp/store", "test").migrate(".weave/config.toml").unwrap();
    assert_eq!(cfg.version, 1);
    assert!(!warnings.is_empty());
    assert!(!cfg.execution.enabled);
    assert_eq!(cfg.store_path, "/tmp/store");
}

#[test]
fn current_version_loads_without_warnings_and_bad_policy_fails_closed() {
    let (cfg, warnings) = loaded(1, "/s", "4").migrate("c").unwrap();
    assert_eq!(cfg.version, 1);
    assert!(warnings.is_empty());
    let mut bad = loaded(1, "/s", "4");
    bad.execution.profile = "open".into();
    let err = bad.migrate("c").unwrap_err();
    assert!(err.reason().contains("fails closed"));
}

#[test]
fn parse_https_host_ignores_case_and_strips_authority() {
    let (scheme, host) = parse_https_host("  HTTPS://User@CDN.Example.COM:8443/x/y ").unwrap();
    assert_eq!(scheme, "https");
    assert_eq!(host, "cdn.example.com");
    assert_eq!(
        parse_https_host("https://user@cdn.example.com:8443/x/y").unwrap(),
        parse_https_host("HTTPS://USER@CDN.EXAMPLE.COM:8443/X/Y").unwrap()
    );
    assert!(parse_https_host("ftp://cdn.example.com").is_err());
}
