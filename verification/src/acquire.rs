//! Artifact acquisition decisions: which nodes are fetched, from where, and
//! how fetched bytes are checked before they enter the store.
use vstd::prelude::*;
use crate::artifact::{hash_bytes, hex_of, sha256, ArtifactId};
use crate::audit::{constraint_allows, fit_of, platform_fit, PlatformFit};
use crate::error::Error;
use crate::integrity::{digest_for, valid_sri, Integrity};
use crate::lockfile::{node_list, DependencyGraph, PackageKey, PackageNode, PackageSource, SourceModel};
use crate::prebuild::HostPlatform;
use crate::text::{
    chars_of, copy_opt, copy_strings, debug_quoted, debug_str, extend_str, opt_view, own, starts_with,
    str_starts_with, string_of,
};
use crate::textmap::TextMap;
use crate::discovery::{debug_list, debug_names};

verus! {

/// Request to fetch one package artifact.
#[derive(Debug)]
pub struct ArtifactRequest {
    /// Package name for diagnostics.
    pub name: String,
    /// Resolved version when known.
    pub version: Option<String>,
    /// Download URL or local path source.
    pub source: PackageSource,
    /// npm integrity string, when recorded.
    pub integrity: Option<String>,
    /// Lockfile node key.
    pub key: PackageKey,
}

/// A request as plain values.
pub struct RequestModel {
    pub name: Seq<char>,
    pub version: Option<Seq<char>>,
    pub source: SourceModel,
    pub integrity: Option<Seq<char>>,
    pub key: Seq<char>,
}

impl ArtifactRequest {
    /// The request as plain values.
    pub open spec fn model(&self) -> RequestModel {
        RequestModel {
            name: self.name@,
            version: opt_view(self.version),
            source: self.source@,
            integrity: opt_view(self.integrity),
            key: self.key@,
        }
    }
}

/// Request views.
pub open spec fn request_models(s: Seq<ArtifactRequest>) -> Seq<RequestModel> {
    s.map_values(|r: ArtifactRequest| r.model())
}

/// Bytes fetched for an artifact before they enter the store.
#[derive(Debug)]
pub struct FetchedArtifact {
    /// Raw artifact bytes (usually a tarball).
    pub bytes: Vec<u8>,
}

/// Optional packages skipped during acquisition.
#[derive(Debug)]
pub struct AcquireFilterReport {
    /// Number of optional packages skipped for an os/cpu mismatch.
    pub skipped_optional: usize,
    /// Their keys, in key order.
    pub skipped_keys: Vec<String>,
}

/// One artifact placed into the store.
#[derive(Debug)]
pub struct StoredArtifact {
    /// Request that was acquired.
    pub request: ArtifactRequest,
    /// Content-addressed id.
    pub artifact_id: ArtifactId,
    /// Whether bytes were newly written (`false`: the object already existed).
    pub newly_stored: bool,
}

/// A resolved source starting with `http://` or `https://`.
pub open spec fn is_http_url(r: Seq<char>) -> bool {
    starts_with(r, "http://"@) || starts_with(r, "https://"@)
}

/// The name a request reports: the node's name, else its key.
pub open spec fn request_name(n: PackageNode) -> Seq<char> {
    match opt_view(n.name) {
        Some(x) => x,
        None => n.key@,
    }
}

/// The request a node yields: registry and path sources as they are, other
/// HTTP(S) sources as registry downloads; none for the root, workspace
/// members, links and anything else.
pub open spec fn request_of(n: PackageNode) -> Option<RequestModel> {
    if n.key@.len() == 0 || n.is_workspace {
        None
    } else {
        match n.source@ {
            SourceModel::Registry(_) | SourceModel::Path(_) => Some(
                RequestModel {
                    name: request_name(n),
                    version: opt_view(n.version),
                    source: n.source@,
                    integrity: opt_view(n.integrity),
                    key: n.key@,
                },
            ),
            SourceModel::Other(Some(r)) => if is_http_url(r) {
                Some(
                    RequestModel {
                        name: request_name(n),
                        version: opt_view(n.version),
                        source: SourceModel::Registry(r),
                        integrity: opt_view(n.integrity),
                        key: n.key@,
                    },
                )
            } else {
                None
            },
            _ => None,
        }
    }
}

impl ArtifactRequest {
    /// The request for a node with a fetchable registry/path source.
    pub fn from_node(node: &PackageNode) -> (r: Option<ArtifactRequest>)
        ensures
            match (r, request_of(*node)) {
                (Some(q), Some(m)) => q.model() == m,
                (None, None) => true,
                _ => false,
            },
    {
        if node.key.is_root() || node.is_workspace {
            return None;
        }
        let name = match &node.name {
            Some(n) => own(n.as_str()),
            None => own(node.key.as_str()),
        };
        match &node.source {
            PackageSource::Registry { resolved } => Some(
                ArtifactRequest {
                    name,
                    version: copy_opt(&node.version),
                    source: PackageSource::Registry { resolved: own(resolved.as_str()) },
                    integrity: copy_opt(&node.integrity),
                    key: node.key.copy(),
                },
            ),
            PackageSource::Path { path } => Some(
                ArtifactRequest {
                    name,
                    version: copy_opt(&node.version),
                    source: PackageSource::Path { path: own(path.as_str()) },
                    integrity: copy_opt(&node.integrity),
                    key: node.key.copy(),
                },
            ),
            PackageSource::Other { resolved: Some(r) } => {
                if str_starts_with(r.as_str(), "http://") || str_starts_with(r.as_str(), "https://") {
                    Some(
                        ArtifactRequest {
                            name,
                            version: copy_opt(&node.version),
                            source: PackageSource::Registry { resolved: own(r.as_str()) },
                            integrity: copy_opt(&node.integrity),
                            key: node.key.copy(),
                        },
                    )
                } else {
                    None
                }
            },
            _ => None,
        }
    }
}

/// Requests of the listed nodes that fit the host, in order.
pub open spec fn requests_of(ns: Seq<PackageNode>, host: HostPlatform) -> Seq<RequestModel>
    decreases ns.len(),
{
    if ns.len() == 0 {
        Seq::empty()
    } else {
        let p = requests_of(ns.drop_last(), host);
        let n = ns.last();
        if fit_of(n, host) == PlatformFit::Compatible && request_of(n).is_some() {
            p.push(request_of(n).unwrap())
        } else {
            p
        }
    }
}

/// Keys of the listed nodes skipped as optional on the host, in order.
pub open spec fn skipped_optional_keys(ns: Seq<PackageNode>, host: HostPlatform) -> Seq<Seq<char>>
    decreases ns.len(),
{
    if ns.len() == 0 {
        Seq::empty()
    } else {
        let p = skipped_optional_keys(ns.drop_last(), host);
        if fit_of(ns.last(), host) == PlatformFit::SkipOptional {
            p.push(ns.last().key@)
        } else {
            p
        }
    }
}

/// Index of the first listed node that the host rejects, or the length.
pub open spec fn first_rejected(ns: Seq<PackageNode>, host: HostPlatform, i: int) -> int
    decreases ns.len() - i,
{
    if i < 0 || i >= ns.len() {
        ns.len() as int
    } else if fit_of(ns[i], host) == PlatformFit::RejectRequired {
        i
    } else {
        first_rejected(ns, host, i + 1)
    }
}

/// Reason reported for a required package that does not fit the host.
pub open spec fn rejection_reason(n: PackageNode, host: HostPlatform) -> Seq<char> {
    "package "@ + request_name(n) + " is incompatible with host "@ + host.os@ + "/"@ + host.cpu@
        + " (os="@ + debug_list(n.os.deep_view()) + " cpu="@ + debug_list(n.cpu.deep_view()) + ")"@
}

/// What acquiring `graph` on `host` fetches, in key order, and which optional
/// packages it skips. A required package that does not fit the host fails.
pub fn acquisition_requests(graph: &DependencyGraph, host: &HostPlatform) -> (r: Result<(Vec<ArtifactRequest>, AcquireFilterReport), Error>)
    ensures
        ({
            let ns = node_list(graph.nodes);
            let fr = first_rejected(ns, *host, 0);
            match r {
                Ok((reqs, rep)) => fr == ns.len() && request_models(reqs@) == requests_of(ns, *host)
                    && rep.skipped_keys.deep_view() == skipped_optional_keys(ns, *host)
                    && rep.skipped_optional == rep.skipped_keys@.len(),
                Err(e) => 0 <= fr < ns.len() && (e matches Error::InvalidState { path, reason } && path@
                    == ns[fr].key@ && reason@ == rejection_reason(ns[fr], *host)),
            }
        }),
{
    let ghost ns = node_list(graph.nodes);
    let mut out: Vec<ArtifactRequest> = Vec::new();
    let mut skipped: Vec<String> = Vec::new();
    let mut i: usize = 0;
    assert(ns.take(0) =~= Seq::<PackageNode>::empty());
    assert(request_models(out@) =~= Seq::empty());
    assert(skipped.deep_view() =~= Seq::<Seq<char>>::empty());
    while i < graph.nodes.len()
        invariant
            i <= ns.len(),
            ns == node_list(graph.nodes),
            first_rejected(ns, *host, 0) == first_rejected(ns, *host, i as int),
            request_models(out@) == requests_of(ns.take(i as int), *host),
            skipped.deep_view() == skipped_optional_keys(ns.take(i as int), *host),
            skipped@.len() <= i,
        decreases ns.len() - i,
    {
        let node = graph.nodes.value_at(i);
        assert(ns[i as int] == *node);
        assert(ns.take(i + 1).drop_last() =~= ns.take(i as int));
        assert(ns.take(i + 1).last() == *node);
        match platform_fit(node, host) {
            PlatformFit::Compatible => {
                match ArtifactRequest::from_node(node) {
                    Some(req) => {
                        let ghost before = out@;
                        out.push(req);
                        assert(request_models(out@) =~= request_models(before).push(req.model()));
                    },
                    None => {},
                }
            },
            PlatformFit::SkipOptional => {
                let ghost before = skipped.deep_view();
                skipped.push(own(node.key.as_str()));
                assert(skipped.deep_view() =~= before.push(node.key@));
            },
            PlatformFit::RejectRequired => {
                assert(first_rejected(ns, *host, i as int) == i);
                let name = match &node.name {
                    Some(n) => n.as_str(),
                    None => node.key.as_str(),
                };
                let mut m = chars_of("package ");
                extend_str(&mut m, name);
                extend_str(&mut m, " is incompatible with host ");
                extend_str(&mut m, host.npm_os());
                extend_str(&mut m, "/");
                extend_str(&mut m, host.npm_cpu());
                extend_str(&mut m, " (os=");
                extend_str(&mut m, debug_names(&node.os).as_str());
                extend_str(&mut m, " cpu=");
                extend_str(&mut m, debug_names(&node.cpu).as_str());
                extend_str(&mut m, ")");
                assert(m@ =~= rejection_reason(*node, *host));
                return Err(Error::InvalidState { path: own(node.key.as_str()), reason: string_of(&m) });
            },
        }
        i += 1;
    }
    assert(ns.take(ns.len() as int) =~= ns);
    let n = skipped.len();
    Ok((out, AcquireFilterReport { skipped_optional: n, skipped_keys: skipped }))
}

/// Algorithm part of an integrity string.
pub open spec fn sri_algorithm(raw: Seq<char>) -> Seq<char> {
    raw.take(crate::text::find(raw, seq!['-']))
}

/// Digest part of an integrity string.
pub open spec fn sri_digest(raw: Seq<char>) -> Seq<char> {
    raw.skip(crate::text::find(raw, seq!['-']) + 1)
}

/// Check fetched bytes against the request's integrity (when recorded) and
/// name the content: the artifact id is the SHA-256 of the bytes.
pub fn check_fetched(request: &ArtifactRequest, bytes: &[u8]) -> (r: Result<ArtifactId, Error>)
    ensures
        match opt_view(request.integrity) {
            None => r matches Ok(id) && id@ == hex_of(sha256(bytes@)),
            Some(raw) => if !valid_sri(raw) {
                r matches Err(Error::InvalidState { .. })
            } else {
                match digest_for(sri_algorithm(raw), bytes@) {
                    Some(d) => if crate::integrity::b64_encode(d) == sri_digest(raw) {
                        r matches Ok(id) && id@ == hex_of(sha256(bytes@))
                    } else {
                        r matches Err(Error::IntegrityCheckFailed { package, .. }) && package@ == request.name@
                    },
                    None => r matches Err(Error::IntegrityCheckFailed { package, .. }) && package@
                        == request.name@,
                }
            },
        },
{
    match &request.integrity {
        Some(raw) => {
            let integrity = match Integrity::parse(raw.as_str()) {
                Ok(i) => i,
                Err(e) => {
                    return Err(Error::InvalidState { path: own(request.name.as_str()), reason: e });
                },
            };
            match integrity.verify(bytes, request.name.as_str()) {
                Ok(()) => {},
                Err(e) => {
                    return Err(e);
                },
            }
        },
        None => {},
    }
    Ok(hash_bytes(bytes))
}

// ---------------------------------------------------------------------------
// Artifact sources
// ---------------------------------------------------------------------------

/// `Debug` rendering of a source.
pub open spec fn source_text(s: SourceModel) -> Seq<char> {
    match s {
        SourceModel::Registry(r) => "Registry { resolved: "@ + debug_quoted(r) + " }"@,
        SourceModel::Link(t) => "Link { target: "@ + debug_quoted(t) + " }"@,
        SourceModel::Path(p) => "Path { path: "@ + debug_quoted(p) + " }"@,
        SourceModel::Workspace => "Workspace"@,
        SourceModel::Other(None) => "Other { resolved: None }"@,
        SourceModel::Other(Some(r)) => "Other { resolved: Some("@ + debug_quoted(r) + ") }"@,
    }
}

/// `Debug` rendering of a source.
pub fn source_debug(s: &PackageSource) -> (r: String)
    ensures
        r@ == source_text(s@),
{
    let mut m: Vec<char>;
    match s {
        PackageSource::Registry { resolved } => {
            m = chars_of("Registry { resolved: ");
            extend_str(&mut m, debug_str(resolved.as_str()).as_str());
            extend_str(&mut m, " }");
        },
        PackageSource::Link { target } => {
            m = chars_of("Link { target: ");
            extend_str(&mut m, debug_str(target.as_str()).as_str());
            extend_str(&mut m, " }");
        },
        PackageSource::Path { path } => {
            m = chars_of("Path { path: ");
            extend_str(&mut m, debug_str(path.as_str()).as_str());
            extend_str(&mut m, " }");
        },
        PackageSource::Workspace => {
            m = chars_of("Workspace");
        },
        PackageSource::Other { resolved: None } => {
            m = chars_of("Other { resolved: None }");
        },
        PackageSource::Other { resolved: Some(r) } => {
            m = chars_of("Other { resolved: Some(");
            extend_str(&mut m, debug_str(r.as_str()).as_str());
            extend_str(&mut m, ") }");
        },
    }
    string_of(&m)
}

/// Where the default source fetches a request from.
#[derive(Debug, Clone, Copy, PartialEq, Eq, Structural)]
pub enum ArtifactRoute {
    /// Local file or directory snapshot.
    Files,
    /// HTTP(S) download.
    Http,
}

/// Route of a request: path sources from files, registry and other HTTP(S)
/// sources over HTTP, anything else refused.
pub open spec fn route_of(s: SourceModel) -> Result<ArtifactRoute, Seq<char>> {
    match s {
        SourceModel::Path(_) => Ok(ArtifactRoute::Files),
        SourceModel::Registry(_) => Ok(ArtifactRoute::Http),
        SourceModel::Other(Some(r)) => if is_http_url(r) {
            Ok(ArtifactRoute::Http)
        } else {
            Err(source_text(s))
        },
        _ => Err(source_text(s)),
    }
}

/// Choose how the default source fetches `request`.
pub fn artifact_route(request: &ArtifactRequest) -> (r: Result<ArtifactRoute, Error>)
    ensures
        match (r, route_of(request.source@)) {
            (Ok(a), Ok(b)) => a == b,
            (Err(e), Err(t)) => e matches Error::FetchFailed { url, reason } && url@ == t && reason@
                == "unsupported artifact source for DefaultArtifactSource"@,
            _ => false,
        },
{
    match &request.source {
        PackageSource::Path { .. } => Ok(ArtifactRoute::Files),
        PackageSource::Registry { .. } => Ok(ArtifactRoute::Http),
        PackageSource::Other { resolved: Some(r) } if str_starts_with(r.as_str(), "http://")
            || str_starts_with(r.as_str(), "https://") => Ok(ArtifactRoute::Http),
        other => Err(
            Error::FetchFailed {
                url: source_debug(other),
                reason: own("unsupported artifact source for DefaultArtifactSource"),
            },
        ),
    }
}

/// Reads artifacts from local paths, relative ones under `base_dir`.
#[derive(Debug)]
pub struct FileArtifactSource {
    /// Directory relative path sources are resolved against.
    pub base_dir: String,
    /// Package name → file path, consulted first.
    pub overrides: TextMap<String>,
}

impl FileArtifactSource {
    /// A file source rooted at `base_dir`, without overrides.
    pub fn new(base_dir: String) -> (r: FileArtifactSource)
        ensures
            r.base_dir@ == base_dir@,
            r.overrides.wf(),
            r.overrides.spec_entries().len() == 0,
    {
        FileArtifactSource { base_dir, overrides: TextMap::new() }
    }

    /// Bind a package name to a file.
    pub fn with_override(self, name: String, path: String) -> (r: FileArtifactSource)
        requires
            self.overrides.wf(),
        ensures
            r.base_dir@ == self.base_dir@,
            r.overrides.wf(),
            r.overrides.spec_get(name@) == Some(path@),
            forall|q: Seq<char>| q != name@ ==> r.overrides.spec_get(q) == self.overrides.spec_get(q),
    {
        let mut s = self;
        s.overrides.insert(name, path);
        s
    }

    /// The file to read for `request`: the override for its name, else its
    /// path source (absolute as given, relative under `base_dir`). Registry
    /// and other sources are refused.
    pub fn resolve_path(&self, request: &ArtifactRequest) -> (r: Result<String, Error>)
        requires
            self.overrides.wf(),
        ensures
            match self.overrides.spec_get(request.name@) {
                Some(p) => r matches Ok(x) && x@ == p,
                None => match request.source@ {
                    SourceModel::Path(p) => r matches Ok(x) && x@ == crate::paths::path_push(self.base_dir@, p),
                    SourceModel::Registry(u) => r matches Err(Error::FetchFailed { url, reason })
                        && url@ == u && reason@ == "FileArtifactSource cannot fetch registry URLs"@,
                    s => r matches Err(Error::FetchFailed { url, reason }) && url@ == source_text(s)
                        && reason@ == "unsupported source for FileArtifactSource"@,
                },
            },
    {
        match self.overrides.get(request.name.as_str()) {
            Some(p) => {
                return Ok(own(p.as_str()));
            },
            None => {},
        }
        match &request.source {
            PackageSource::Path { path } => {
                let mut b = chars_of(self.base_dir.as_str());
                crate::paths::push_path(&mut b, &chars_of(path.as_str()));
                Ok(string_of(&b))
            },
            PackageSource::Registry { resolved } => Err(
                Error::FetchFailed {
                    url: own(resolved.as_str()),
                    reason: own("FileArtifactSource cannot fetch registry URLs"),
                },
            ),
            other => Err(
                Error::FetchFailed {
                    url: source_debug(other),
                    reason: own("unsupported source for FileArtifactSource"),
                },
            ),
        }
    }
}

/// Downloads registry tarballs over HTTP(S).
#[derive(Debug)]
pub struct HttpArtifactSource {
    /// User-agent sent with each request.
    pub user_agent: String,
}

impl HttpArtifactSource {
    /// A fetcher with the Weave user-agent.
    pub fn new() -> (r: HttpArtifactSource)
        ensures
            r.user_agent@ == "weave/0.1.0"@,
    {
        HttpArtifactSource { user_agent: own("weave/0.1.0") }
    }

    /// The URL to download for `request`: registry sources only.
    pub fn download_url(&self, request: &ArtifactRequest) -> (r: Result<String, Error>)
        ensures
            match request.source@ {
                SourceModel::Registry(u) => r matches Ok(x) && x@ == u,
                s => r matches Err(Error::FetchFailed { url, reason }) && url@ == source_text(s) && reason@
                    == "HttpArtifactSource only supports registry URLs"@,
            },
    {
        match &request.source {
            PackageSource::Registry { resolved } => Ok(own(resolved.as_str())),
            other => Err(
                Error::FetchFailed {
                    url: source_debug(other),
                    reason: own("HttpArtifactSource only supports registry URLs"),
                },
            ),
        }
    }
}

/// Registry downloads over HTTP(S) and `file:` sources from disk, routed by
/// `artifact_route`.
#[derive(Debug)]
pub struct DefaultArtifactSource {
    /// Registry downloads.
    pub http: HttpArtifactSource,
    /// Local path sources.
    pub files: FileArtifactSource,
}

impl DefaultArtifactSource {
    /// Resolve relative `file:` sources against `project_root`.
    pub fn for_project(project_root: String) -> (r: DefaultArtifactSource)
        ensures
            r.http.user_agent@ == "weave/0.1.0"@,
            r.files.base_dir@ == project_root@,
            r.files.overrides.wf(),
            r.files.overrides.spec_entries().len() == 0,
    {
        DefaultArtifactSource { http: HttpArtifactSource::new(), files: FileArtifactSource::new(project_root) }
    }
}

} // verus!
