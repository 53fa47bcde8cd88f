use weave::fetch::{PrebuildHttp, RecordingTransport};
use weave::fetch::{redirect_step, FetchStep};
use weave::config::{ExecutionConfig, PrebuildConfig, PrebuildFetchSpec};
use weave::error::Error;
use weave::fetch::{
    check_cache_index, check_cached_prebuild, check_cached_provenance, fetch_verified_prebuild,
    https_fetch_allowlisted, plan_all_prebuilds,
    prebuild_cache_key, prebuild_gate, resolve_redirect, validate_fetch_url,
    MockPrebuildTransport, PrebuildHttpResponse, PrebuildProvenance,
};
use weave::integrity::Integrity;
use weave::prebuild::HostPlatform;
use weave::textmap::TextMap;

fn sri(bytes: &[u8]) -> String {
    Integrity::sha256_sri(bytes).raw
}

fn host() -> HostPlatform {
    HostPlatform::from_rust("linux", "x86_64")
}

fn base_cfg(bytes: &[u8]) -> ExecutionConfig {
    let mut declared = TextMap::new();
    declared.insert("demo-prebuild".to_string(), vec!["prebuilds/addon.node".to_string()]);
    ExecutionConfig {
        enabled: true,
        profile: "prebuild-fetch".into(),
        allow_packages: vec!["demo-prebuild".into()],
        declared_outputs: declared,
        prebuild: PrebuildConfig {
            allow_hosts: vec!["cdn.example.com".into()],
            fetches: vec![PrebuildFetchSpec {
                package: "demo-prebuild".into(),
                url: "https://cdn.example.com/addon.node".into(),
                integrity: sri(bytes),
                output: "prebuilds/addon.node".into(),
                node_abi: None,
                os: None,
                cpu: None,
            }],
        },
        ..ExecutionConfig::default()
    }
}

fn ok_response(body: &[u8]) -> PrebuildHttpResponse {
    PrebuildHttpResponse { status: 200, location: None, body: body.to_vec() }
}

#[test]
fn denies_unallowlisted_host() {
    let err = validate_fetch_url("https://evil.example/x.node", &vec!["cdn.example.com".into()])
        .unwrap_err();
    assert!(err.reason().contains("not in"));
}

#[test]
fn denies_http_scheme() {
    let err = validate_fetch_url("http://cdn.example.com/x.node", &vec!["cdn.example.com".into()])
        .unwrap_err();
    assert!(err.reason().contains("https"));
}

#[test]
fn redirect_to_denied_host_fails() {
    let mut transport = MockPrebuildTransport::new().with(
        "https://cdn.example.com/start".to_string(),
        PrebuildHttpResponse {
            status: 302,
            location: Some("https://evil.example/x.node".into()),
            body: Vec::new(),
        },
    );
    let err = https_fetch_allowlisted(
        &mut transport,
        "https://cdn.example.com/start",
        &vec!["cdn.example.com".into()],
    )
    .unwrap_err();
    let text = err.reason();
    assert!(text.contains("denied") || text.contains("not in"), "{text}");
    assert_eq!(transport.hit_count("https://evil.example/x.node"), 0);
    assert_eq!(transport.hit_count("https://cdn.example.com/start"), 1);
}

#[test]
fn redirect_loop_stops_after_the_request_limit() {
    let mut transport = MockPrebuildTransport::new().with(
        "https://cdn.example.com/loop".to_string(),
        PrebuildHttpResponse { status: 302, location: Some("/loop".into()), body: Vec::new() },
    );
    let err = https_fetch_allowlisted(&mut transport, "https://cdn.example.com/loop", &vec!["cdn.example.com".into()])
        .unwrap_err();
    assert!(err.reason().contains("too many redirects"));
    assert_eq!(transport.hit_count("https://cdn.example.com/loop"), 6);
}

#[test]
fn allowed_fetch_verifies_integrity() {
    let body = b"native-prebuild-bytes";
    let mut transport = MockPrebuildTransport::new()
        .with("https://cdn.example.com/addon.node".to_string(), ok_response(body));
    let (got, url) = https_fetch_allowlisted(
        &mut transport,
        "https://cdn.example.com/addon.node",
        &vec!["cdn.example.com".into()],
    )
    .unwrap();
    assert_eq!(got, body);
    assert_eq!(url, "https://cdn.example.com/addon.node");
    Integrity::parse(&sri(body)).unwrap().verify(&got, "demo").unwrap();
    assert_eq!(transport.hit_count("https://cdn.example.com/addon.node"), 1);
}

#[test]
fn allowed_redirect_is_followed() {
    let body = b"redirected-bytes";
    let mut transport = MockPrebuildTransport::new()
        .with(
            "https://cdn.example.com/start".to_string(),
            PrebuildHttpResponse {
                status: 302,
                location: Some("/final/addon.node".into()),
                body: Vec::new(),
            },
        )
        .with("https://cdn.example.com/final/addon.node".to_string(), ok_response(body));
    let (got, url) = https_fetch_allowlisted(
        &mut transport,
        "https://cdn.example.com/start",
        &vec!["cdn.example.com".into()],
    )
    .unwrap();
    assert_eq!(got, body);
    assert_eq!(url, "https://cdn.example.com/final/addon.node");
}

#[test]
fn unscripted_url_is_a_fetch_failure() {
    let mut transport = MockPrebuildTransport::new();
    let err = https_fetch_allowlisted(
        &mut transport,
        "https://cdn.example.com/missing.node",
        &vec!["cdn.example.com".into()],
    )
    .unwrap_err();
    assert!(matches!(err, Error::FetchFailed { .. }));
    assert_eq!(transport.hit_count("https://cdn.example.com/missing.node"), 1);
}

#[test]
fn refused_url_makes_no_request() {
    let mut transport = MockPrebuildTransport::new()
        .with("http://cdn.example.com/x.node".to_string(), ok_response(b"x"));
    let err = https_fetch_allowlisted(
        &mut transport,
        "http://cdn.example.com/x.node",
        &vec!["cdn.example.com".into()],
    )
    .unwrap_err();
    assert!(matches!(err, Error::InvalidState { .. }));
    assert_eq!(transport.hit_count("http://cdn.example.com/x.node"), 0);
}

#[test]
fn integrity_mismatch_fails() {
    let body = b"actual";
    let integrity = Integrity::parse(&sri(b"expected")).unwrap();
    assert!(integrity.verify(body, "demo").is_err());
}

#[test]
fn dry_run_plan_needs_network_flag() {
    let cfg = base_cfg(b"x");
    let plan = plan_all_prebuilds(&cfg, &host(), "137").unwrap();
    assert_eq!(plan.len(), 1);
    assert!(plan[0].needs_network);
    assert!(plan[0].host_allowed);
    let offline = ExecutionConfig { profile: "offline".into(), ..cfg };
    let plan = plan_all_prebuilds(&offline, &host(), "137").unwrap();
    assert!(!plan[0].needs_network);
    assert!(plan[0].reason.contains("offline"));
}

#[test]
fn abi_mismatch_refuses_fetch() {
    let mut cfg = base_cfg(b"abi-bytes");
    cfg.prebuild.fetches[0].node_abi = Some("0".into());
    let err = prebuild_gate(&cfg, "demo-prebuild", &host(), "137").unwrap_err();
    let text = err.reason();
    assert!(text.contains("ABI") || text.contains("match"), "{text}");
}

#[test]
fn offline_profile_refuses_network() {
    let mut cfg = base_cfg(b"offline-bytes");
    cfg.profile = "offline".into();
    assert!(prebuild_gate(&cfg, "demo-prebuild", &host(), "137").is_err());
}

#[test]
fn gate_selects_matching_fetch() {
    let cfg = base_cfg(b"bytes");
    let spec = prebuild_gate(&cfg, "demo-prebuild", &host(), "137").unwrap().unwrap();
    assert_eq!(spec.url, "https://cdn.example.com/addon.node");
    assert!(prebuild_gate(&cfg, "other", &host(), "137").unwrap().is_none());
}

#[test]
fn redirect_targets_resolve_against_base() {
    assert_eq!(
        resolve_redirect("https://cdn.example.com/a/b", "/c").unwrap(),
        "https://cdn.example.com/c"
    );
    assert_eq!(
        resolve_redirect("https://cdn.example.com/a/b", "https://other.example/x").unwrap(),
        "https://other.example/x"
    );
}

#[test]
fn cache_key_and_provenance_checks() {
    let cfg = base_cfg(b"bytes");
    let spec = &cfg.prebuild.fetches[0];
    let key = prebuild_cache_key(spec, "linux", "x64", "137");
    assert_eq!(key, prebuild_cache_key(spec, "linux", "x64", "137"));
    assert_ne!(key, prebuild_cache_key(spec, "linux", "x64", "108"));
    let prov = PrebuildProvenance {
        package: "demo-prebuild".into(),
        url: spec.url.clone(),
        integrity: spec.integrity.clone(),
        output: spec.output.clone(),
        os: "linux".into(),
        cpu: "x64".into(),
        node_abi: "137".into(),
        node_version: "24.0.0".into(),
        artifact_id: "a".repeat(64),
        cache_key: key.clone(),
        profile: "prebuild-fetch".into(),
    };
    assert!(check_cached_provenance(&prov, "137", &host()).is_ok());
    assert!(check_cached_provenance(&prov, "108", &host()).is_err());
    assert!(check_cache_index(&prov, &key).is_ok());
    assert!(check_cache_index(&prov, "other").is_err());
}

#[test]
fn cache_hit_skips_second_fetch() {
    let body = b"cached-prebuild-v1";
    let cfg = base_cfg(body);
    let spec = &cfg.prebuild.fetches[0];
    let integrity = Integrity::parse(&spec.integrity).unwrap();
    let mut transport = MockPrebuildTransport::new()
        .with("https://cdn.example.com/addon.node".to_string(), ok_response(body));
    let key = prebuild_cache_key(spec, "linux", "x64", "137");
    let (bytes, prov) = fetch_verified_prebuild(
        &mut transport,
        &cfg.prebuild.allow_hosts,
        spec,
        &integrity,
        &host(),
        "137",
        "24.0.0",
        &key,
    )
    .unwrap();
    assert_eq!(bytes, body);
    assert_eq!(transport.hit_count("https://cdn.example.com/addon.node"), 1);
    assert_eq!(prov.artifact_id, weave::artifact::hash_bytes(body).as_str());
    assert_eq!(prov.cache_key, key);
    assert_eq!(prov.profile, "prebuild-fetch");
    // The second use reads the stored bytes: no request is made.
    assert!(check_cached_prebuild(&integrity, &bytes, &prov, "137", &host()).is_ok());
    assert_eq!(transport.hit_count("https://cdn.example.com/addon.node"), 1);
    assert!(check_cached_prebuild(&integrity, b"tampered", &prov, "137", &host()).is_err());
    assert!(check_cached_prebuild(&integrity, &bytes, &prov, "108", &host()).is_err());
}

#[test]
fn fetched_bytes_failing_integrity_are_refused() {
    let cfg = base_cfg(b"expected");
    let spec = &cfg.prebuild.fetches[0];
    let integrity = Integrity::parse(&spec.integrity).unwrap();
    let mut transport = MockPrebuildTransport::new()
        .with("https://cdn.example.com/addon.node".to_string(), ok_response(b"actual"));
    let err = fetch_verified_prebuild(
        &mut transport,
        &cfg.prebuild.allow_hosts,
        spec,
        &integrity,
        &host(),
        "137",
        "24.0.0",
        "k",
    )
    .unwrap_err();
    assert!(err.reason().starts_with("prebuild integrity verification failed: expected sha256-"));
}

#[test]
fn redirect_step_follows_only_allowlisted_locations() {
    let allow = vec!["cdn.example.com".to_string(), "objects.example.com".to_string()];
    let resp = |status: u16, location: Option<&str>, body: &[u8]| PrebuildHttpResponse {
        status,
        location: location.map(|l| l.to_string()),
        body: body.to_vec(),
    };
    match redirect_step("https://cdn.example.com/a", resp(302, Some("https://objects.example.com/b"), b""), &allow) {
        Ok(FetchStep::Follow(next)) => assert_eq!(next, "https://objects.example.com/b"),
        _ => panic!("expected a redirect to follow"),
    }
    match redirect_step("https://cdn.example.com/a", resp(301, Some("/c"), b""), &allow) {
        Ok(FetchStep::Follow(next)) => assert_eq!(next, "https://cdn.example.com/c"),
        _ => panic!("expected a root-relative redirect"),
    }
    match redirect_step("https://cdn.example.com/a", resp(302, None, b""), &allow) {
        Err(Error::FetchFailed { url, reason }) => {
            assert_eq!(url, "https://cdn.example.com/a");
            assert_eq!(reason, "redirect 302 without Location");
        }
        _ => panic!("expected a failure"),
    }
    match redirect_step("https://cdn.example.com/a", resp(302, Some("https://evil.example/x"), b""), &allow) {
        Err(Error::FetchFailed { url, reason }) => {
            assert_eq!(url, "https://evil.example/x");
            assert!(reason.starts_with("redirect to denied host/url: "));
        }
        _ => panic!("expected a denied redirect"),
    }
    match redirect_step("https://cdn.example.com/a", resp(200, None, b"bytes"), &allow) {
        Ok(FetchStep::Done(body)) => assert_eq!(body, b"bytes".to_vec()),
        _ => panic!("expected the body"),
    }
    match redirect_step("https://cdn.example.com/a", resp(404, None, b"nope"), &allow) {
        Err(Error::FetchFailed { reason, .. }) => assert_eq!(reason, "unexpected HTTP status 404"),
        _ => panic!("expected a status failure"),
    }
}

struct RedirectingClient;

impl PrebuildHttp for RedirectingClient {
    fn get(&mut self, url: &str) -> Result<PrebuildHttpResponse, Error> {
        if url == "https://cdn.example.com/a" {
            Ok(PrebuildHttpResponse { status: 302, location: Some("/b".into()), body: Vec::new() })
        } else if url == "https://cdn.example.com/b" {
            Ok(PrebuildHttpResponse { status: 302, location: Some("https://evil.example/x".into()), body: Vec::new() })
        } else {
            Ok(PrebuildHttpResponse { status: 200, location: None, body: b"x".to_vec() })
        }
    }
}

#[test]
fn recording_transport_logs_only_checked_requests() {
    let mut transport = RecordingTransport::new(RedirectingClient);
    let err = https_fetch_allowlisted(&mut transport, "https://cdn.example.com/a", &vec!["cdn.example.com".into()])
        .unwrap_err();
    assert!(matches!(err, Error::FetchFailed { .. }));
    assert_eq!(
        transport.requested_urls(),
        &vec!["https://cdn.example.com/a".to_string(), "https://cdn.example.com/b".to_string()]
    );
    let mut refused = RecordingTransport::new(RedirectingClient);
    assert!(https_fetch_allowlisted(&mut refused, "http://cdn.example.com/a", &vec!["cdn.example.com".into()]).is_err());
    assert!(refused.requested_urls().is_empty());
}
