//! Reviewable drafts from hashing a local artifact the user verified: the
//! SRI of the bytes, an optional fetch draft and a TOML fragment. Hashing
//! measures bytes only; it never downloads, writes config or enables anything.
use vstd::prelude::*;
use crate::artifact::sha256;
use crate::config::{parse_https_host, parse_https_host_spec, PrebuildFetchSpec};
use crate::error::Error;
use crate::integrity::{b64_encode, Integrity};
use crate::scan::{candidate_path_problem, validate_output_candidate_path};
use crate::text::{chars_of, copy_opt, debug_quoted, debug_str, extend_str, has_char, opt_view, own, str_eq, string_of, trim, trim_chars};

verus! {

/// Request to hash a local artifact into a reviewable draft.
#[derive(Debug)]
pub struct HashArtifactRequest {
    /// Path to a regular local file (symlinks refused).
    pub path: String,
    /// Package name for the draft fetch entry.
    pub package: String,
    /// Relative sealed output path under the package root.
    pub output: String,
    /// Optional HTTPS URL to include in the draft (not fetched).
    pub url: Option<String>,
    /// Optional Node ABI constraint.
    pub node_abi: Option<String>,
    /// Optional OS constraint.
    pub os: Option<String>,
    /// Optional CPU constraint.
    pub cpu: Option<String>,
}

/// Result of hashing a verified local artifact.
#[derive(Debug)]
pub struct HashArtifactReport {
    /// Path that was hashed, as displayed.
    pub path: String,
    /// Byte length.
    pub size_bytes: u64,
    /// `sha256-…` SRI of the bytes.
    pub integrity: String,
    /// Reviewable fetch draft when a URL was given.
    pub draft: Option<PrebuildFetchSpec>,
    /// Host of the URL when given.
    pub host: Option<String>,
    /// TOML fragment for human review.
    pub toml_fragment: String,
    /// Reminder that hashing does not establish trust.
    pub note: String,
}

/// Problem with a request before anything is read, if any: an unsafe output
/// path, a glob, or an empty package name.
pub open spec fn request_problem(output: Seq<char>, package: Seq<char>) -> Option<(Seq<char>, Seq<char>)> {
    match candidate_path_problem(output) {
        Some(p) => Some((output, p)),
        None => if has_char(output, '*') {
            Some((output, "output must be an exact relative file path (no globs)"@))
        } else if trim(package).len() == 0 {
            Some(("package"@, "package name is required"@))
        } else {
            None
        },
    }
}

/// Check a request before anything is read.
pub fn check_hash_request(req: &HashArtifactRequest) -> (r: Result<(), Error>)
    ensures
        match request_problem(req.output@, req.package@) {
            Some((p, m)) => r matches Err(Error::InvalidState { path, reason }) && path@ == p && reason@ == m,
            None => r is Ok,
        },
{
    match validate_output_candidate_path(req.output.as_str()) {
        Err(reason) => {
            return Err(Error::InvalidState { path: own(req.output.as_str()), reason });
        },
        Ok(()) => {},
    }
    let oc = chars_of(req.output.as_str());
    if crate::text::has_char_chars(&oc, '*') {
        return Err(
            Error::InvalidState {
                path: own(req.output.as_str()),
                reason: own("output must be an exact relative file path (no globs)"),
            },
        );
    }
    let pc = chars_of(req.package.as_str());
    if trim_chars(&pc).len() == 0 {
        return Err(Error::InvalidState { path: own("package"), reason: own("package name is required") });
    }
    Ok(())
}

/// Optional `key = "value"` line.
pub open spec fn opt_line(key: Seq<char>, v: Option<Seq<char>>) -> Seq<char> {
    match v {
        Some(x) => key + " = "@ + debug_quoted(x) + "\n"@,
        None => Seq::empty(),
    }
}

/// Header of the fragment.
pub open spec fn hash_toml_header() -> Seq<char> {
    "# Generated by `weave exec hash-artifact` — REVIEW BEFORE USE.\n# Human verification of the file is required; Weave did not invent trust.\n# Does not set execution.enabled or profile=open.\n"@
}

/// The TOML fragment for review: the host allowlist when a host is known, a
/// fetch entry when a URL is known, else the values as comments.
pub open spec fn hash_toml(
    package: Seq<char>,
    integrity: Seq<char>,
    output: Seq<char>,
    url: Option<Seq<char>>,
    host: Option<Seq<char>>,
    node_abi: Option<Seq<char>>,
    os: Option<Seq<char>>,
    cpu: Option<Seq<char>>,
) -> Seq<char> {
    hash_toml_header() + host_section(host) + fetch_section(package, integrity, output, url, node_abi, os, cpu)
}

fn push_opt_line(out: &mut Vec<char>, key: &str, v: &Option<String>)
    ensures
        final(out)@ == old(out)@ + opt_line(key@, opt_view(*v)),
{
    match v {
        Some(x) => {
            extend_str(out, key);
            extend_str(out, " = ");
            extend_str(out, debug_str(x.as_str()).as_str());
            extend_str(out, "\n");
        },
        None => {
            assert(old(out)@ + Seq::<char>::empty() =~= old(out)@);
        },
    }
}

/// The host allowlist section of the fragment.
pub open spec fn host_section(host: Option<Seq<char>>) -> Seq<char> {
    match host {
        Some(h) => "[execution.prebuild]\n"@ + "allow_hosts = ["@ + debug_quoted(h) + "]\n\n"@,
        None => Seq::empty(),
    }
}

/// The fetch section of the fragment (commented values without a URL).
pub open spec fn fetch_section(
    package: Seq<char>,
    integrity: Seq<char>,
    output: Seq<char>,
    url: Option<Seq<char>>,
    node_abi: Option<Seq<char>>,
    os: Option<Seq<char>>,
    cpu: Option<Seq<char>>,
) -> Seq<char> {
    match url {
        Some(u) => "[[execution.prebuild.fetches]]\n"@ + "package = "@ + debug_quoted(package) + "\n"@
            + "url = "@ + debug_quoted(u) + "\n"@ + "integrity = "@ + debug_quoted(integrity) + "\n"@
            + "output = "@ + debug_quoted(output) + "\n"@ + opt_line("node_abi"@, node_abi) + opt_line(
            "os"@,
            os,
        ) + opt_line("cpu"@, cpu),
        None => "# integrity = "@ + debug_quoted(integrity) + "\n# package = "@ + debug_quoted(package)
            + "\n# output = "@ + debug_quoted(output)
            + "\n# Add a concrete HTTPS url, then place under [[execution.prebuild.fetches]].\n"@,
    }
}

fn render_host_section(host: &Option<String>) -> (r: Vec<char>)
    ensures
        r@ == host_section(opt_view(*host)),
{
    match host {
        Some(h) => {
            let mut out = chars_of("[execution.prebuild]\n");
            extend_str(&mut out, "allow_hosts = [");
            extend_str(&mut out, debug_str(h.as_str()).as_str());
            extend_str(&mut out, "]\n\n");
            out
        },
        None => {
            let out: Vec<char> = Vec::new();
            assert(out@ =~= Seq::<char>::empty());
            out
        },
    }
}

fn render_fetch_section(
    package: &str,
    integrity: &str,
    output: &str,
    url: &Option<String>,
    node_abi: &Option<String>,
    os: &Option<String>,
    cpu: &Option<String>,
) -> (r: Vec<char>)
    ensures
        r@ == fetch_section(
            package@,
            integrity@,
            output@,
            opt_view(*url),
            opt_view(*node_abi),
            opt_view(*os),
            opt_view(*cpu),
        ),
{
    match url {
        Some(u) => {
            let mut out = chars_of("[[execution.prebuild.fetches]]\n");
            extend_str(&mut out, "package = ");
            extend_str(&mut out, debug_str(package).as_str());
            extend_str(&mut out, "\n");
            extend_str(&mut out, "url = ");
            extend_str(&mut out, debug_str(u.as_str()).as_str());
            extend_str(&mut out, "\n");
            extend_str(&mut out, "integrity = ");
            extend_str(&mut out, debug_str(integrity).as_str());
            extend_str(&mut out, "\n");
            extend_str(&mut out, "output = ");
            extend_str(&mut out, debug_str(output).as_str());
            extend_str(&mut out, "\n");
            push_opt_line(&mut out, "node_abi", node_abi);
            push_opt_line(&mut out, "os", os);
            push_opt_line(&mut out, "cpu", cpu);
            out
        },
        None => {
            let mut out = chars_of("# integrity = ");
            extend_str(&mut out, debug_str(integrity).as_str());
            extend_str(&mut out, "\n# package = ");
            extend_str(&mut out, debug_str(package).as_str());
            extend_str(&mut out, "\n# output = ");
            extend_str(&mut out, debug_str(output).as_str());
            extend_str(
                &mut out,
                "\n# Add a concrete HTTPS url, then place under [[execution.prebuild.fetches]].\n",
            );
            out
        },
    }
}

/// Render the review fragment.
pub fn render_hash_toml(
    package: &str,
    integrity: &str,
    output: &str,
    url: &Option<String>,
    host: &Option<String>,
    node_abi: &Option<String>,
    os: &Option<String>,
    cpu: &Option<String>,
) -> (r: String)
    ensures
        r@ == hash_toml(
            package@,
            integrity@,
            output@,
            opt_view(*url),
            opt_view(*host),
            opt_view(*node_abi),
            opt_view(*os),
            opt_view(*cpu),
        ),
{
    let mut out = chars_of(
        "# Generated by `weave exec hash-artifact` — REVIEW BEFORE USE.\n# Human verification of the file is required; Weave did not invent trust.\n# Does not set execution.enabled or profile=open.\n",
    );
    let h = render_host_section(host);
    crate::text::extend_chars(&mut out, &h);
    let f = render_fetch_section(package, integrity, output, url, node_abi, os, cpu);
    crate::text::extend_chars(&mut out, &f);
    let r = string_of(&out);
    assert(r@ =~= hash_toml_header() + host_section(opt_view(*host)) + fetch_section(
        package@,
        integrity@,
        output@,
        opt_view(*url),
        opt_view(*node_abi),
        opt_view(*os),
        opt_view(*cpu),
    ));
    r
}

/// The reminder attached to every hash report.
pub open spec fn hash_note() -> Seq<char> {
    "REVIEW ONLY — hashing measures bytes; it does not prove provenance. Confirm the file came from a trusted source before merging into execution.prebuild.fetches. Never auto-enables execution or network."@
}

/// Whether the file at `path` may be hashed: a symlink is refused (so a
/// path cannot be swapped under the caller), and so is anything that is not a
/// regular file.
pub fn check_hash_source(path: &str, is_symlink: bool, is_file: bool) -> (r: Result<(), Error>)
    ensures
        is_symlink ==> (r matches Err(Error::InvalidState { path: p, reason }) && p@ == path@ && reason@
            == "refusing to hash symlink — pass a regular file you verified (prevents accidental path / TOCTOU footguns)"@),
        !is_symlink && !is_file ==> (r matches Err(Error::InvalidState { path: p, reason }) && p@ == path@
            && reason@ == "path is not a regular file"@),
        !is_symlink && is_file ==> r is Ok,
{
    if is_symlink {
        return Err(
            Error::InvalidState {
                path: own(path),
                reason: own(
                    "refusing to hash symlink — pass a regular file you verified (prevents accidental path / TOCTOU footguns)",
                ),
            },
        );
    }
    if !is_file {
        return Err(Error::InvalidState { path: own(path), reason: own("path is not a regular file") });
    }
    Ok(())
}

/// The report of hashing `bytes` read from the file the request names
/// (displayed as `display_path`): the `sha256-` SRI, and with a URL the
/// fetch draft and its host; a URL that does not parse, or is not HTTPS, fails.
pub fn hash_report(req: &HashArtifactRequest, display_path: &str, bytes: &[u8]) -> (r: Result<HashArtifactReport, Error>)
    requires
        bytes@.len() <= u64::MAX,
    ensures
        ({
            let sri = "sha256-"@ + b64_encode(sha256(bytes@));
            match opt_view(req.url) {
                Some(u) => match parse_https_host_spec(u) {
                    Err(m) => r matches Err(Error::InvalidState { path, reason }) && path@ == u && reason@
                        == m,
                    Ok((scheme, host)) => if scheme != "https"@ {
                        r matches Err(Error::InvalidState { path, reason }) && path@ == u && reason@
                            == "draft URL must be https (HTTP rejected)"@
                    } else {
                        r matches Ok(rep) && rep.integrity@ == sri && rep.size_bytes == bytes@.len()
                            && rep.path@ == display_path@ && opt_view(rep.host) == Some(host)
                            && (rep.draft matches Some(d) && d.package@ == req.package@ && d.url@ == u
                            && d.integrity@ == sri && d.output@ == req.output@ && opt_view(d.node_abi)
                            == opt_view(req.node_abi) && opt_view(d.os) == opt_view(req.os) && opt_view(
                            d.cpu,
                        ) == opt_view(req.cpu)) && rep.toml_fragment@ == hash_toml(
                            req.package@,
                            sri,
                            req.output@,
                            Some(u),
                            Some(host),
                            opt_view(req.node_abi),
                            opt_view(req.os),
                            opt_view(req.cpu),
                        ) && rep.note@ == hash_note()
                    },
                },
                None => r matches Ok(rep) && rep.integrity@ == sri && rep.size_bytes == bytes@.len()
                    && rep.path@ == display_path@ && rep.host is None && rep.draft is None
                    && rep.toml_fragment@ == hash_toml(
                    req.package@,
                    sri,
                    req.output@,
                    None,
                    None,
                    opt_view(req.node_abi),
                    opt_view(req.os),
                    opt_view(req.cpu),
                ) && rep.note@ == hash_note(),
            }
        }),
{
    let integrity = Integrity::sha256_sri(bytes);
    let (draft, host) = match &req.url {
        Some(url) => {
            let (scheme, host) = match parse_https_host(url.as_str()) {
                Ok(p) => p,
                Err(reason) => {
                    return Err(Error::InvalidState { path: own(url.as_str()), reason });
                },
            };
            if !str_eq(scheme.as_str(), "https") {
                return Err(
                    Error::InvalidState {
                        path: own(url.as_str()),
                        reason: own("draft URL must be https (HTTP rejected)"),
                    },
                );
            }
            let spec = PrebuildFetchSpec {
                package: own(req.package.as_str()),
                url: own(url.as_str()),
                integrity: own(integrity.raw.as_str()),
                output: own(req.output.as_str()),
                node_abi: copy_opt(&req.node_abi),
                os: copy_opt(&req.os),
                cpu: copy_opt(&req.cpu),
            };
            (Some(spec), Some(host))
        },
        None => (None, None),
    };
    let toml_fragment = render_hash_toml(
        req.package.as_str(),
        integrity.raw.as_str(),
        req.output.as_str(),
        &req.url,
        &host,
        &req.node_abi,
        &req.os,
        &req.cpu,
    );
    Ok(
        HashArtifactReport {
            path: own(display_path),
            size_bytes: bytes.len() as u64,
            integrity: integrity.raw,
            draft,
            host,
            toml_fragment,
            note: own(
                "REVIEW ONLY — hashing measures bytes; it does not prove provenance. Confirm the file came from a trusted source before merging into execution.prebuild.fetches. Never auto-enables execution or network.",
            ),
        },
    )
}

} // verus!
