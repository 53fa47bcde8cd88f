//! Decisions of sandboxed execution: the dual gate a run must pass, the
//! cache identity of a run, and when a recorded cache entry may be reused.
use vstd::prelude::*;
use crate::artifact::{hex_encode, hex_of, sha256, sha256_digest, valid_id_input, ArtifactId};
use crate::config::ExecutionConfig;
use crate::error::Error;
use crate::fetch::push_part;
use crate::json::{json_get, json_text_or_empty, JsonValue};
use crate::paths::{declared_output_problem, validate_declared_output};
use crate::prebuild::HostPlatform;
use crate::text::{chars_of, debug_quoted, debug_str, extend_str, list_has, own, replace_all, replace_char, str_eq, string_of, vec_has};
use crate::textmap::{sort_strings, sorted_list};

verus! {

/// Result of sealing declared execution outputs.
#[derive(Debug)]
pub struct ExecSealReport {
    /// Id of the sealed output tarball.
    pub output_artifact_id: ArtifactId,
    /// Relative paths sealed.
    pub sealed_paths: Vec<String>,
    /// Cache identity key of the run.
    pub cache_key: String,
}

/// Report from one sandboxed package execution.
#[derive(Debug)]
pub struct ExecRunReport {
    /// Package executed.
    pub package: String,
    /// Ephemeral work root used.
    pub work_root: String,
    /// Seal report.
    pub seal: ExecSealReport,
    /// Node ABI recorded for identity.
    pub node_abi: String,
    /// Host OS (npm token).
    pub platform_os: String,
    /// Host CPU (npm token).
    pub platform_cpu: String,
}

/// Host, Node and input identity of an execution, keying its cache entry.
#[derive(Debug)]
pub struct ExecIdentity {
    /// npm-style OS.
    pub os: String,
    /// npm-style CPU.
    pub cpu: String,
    /// Node module ABI.
    pub node_abi: String,
    /// Node version.
    pub node_version: String,
    /// Execution profile.
    pub profile: String,
    /// Digest of the allowed scripts.
    pub scripts_digest: String,
    /// Digest of the package's declared outputs.
    pub outputs_digest: String,
    /// Digest of the input package tree.
    pub input_digest: String,
}

/// Persisted execution cache index entry.
#[derive(Debug)]
pub struct ExecCacheRecord {
    /// Package name.
    pub package: String,
    /// Sealed output artifact id.
    pub output_artifact_id: String,
    /// Cache key (matches the file name).
    pub cache_key: String,
    /// Paths sealed into the artifact.
    pub sealed_paths: Vec<String>,
    /// Node ABI at seal time.
    pub node_abi: String,
    /// Host OS (npm token).
    pub os: String,
    /// Host CPU (npm token).
    pub cpu: String,
    /// Execution profile.
    pub profile: String,
}

/// Report from integrating sealed outputs into a candidate tree.
#[derive(Debug)]
pub struct ExecIntegrateReport {
    /// Allowlisted packages considered.
    pub packages_considered: usize,
    /// Packages satisfied from the cache without running scripts.
    pub cache_hits: usize,
    /// Packages that ran sandboxed scripts.
    pub executed: usize,
    /// Packages that received sealed outputs.
    pub applied: usize,
}

/// One package execution request.
#[derive(Debug)]
pub struct ExecRunRequest {
    /// Project root.
    pub project_root: String,
    /// Package name (must be allowlisted).
    pub package: String,
    /// Input package directory (copied into an ephemeral work root).
    pub input_package_dir: String,
    /// Script file, relative to the package root.
    pub script_rel: String,
}

// ---------------------------------------------------------------------------
// Enablement
// ---------------------------------------------------------------------------

/// Reason execution is refused while disabled.
pub open spec fn disabled_reason() -> Seq<char> {
    "execution is disabled: set [execution] enabled = true in version-controlled .weave/config.toml (env vars cannot enable execution)"@
}

/// Refuse execution unless the version-controlled config enables it and validates.
pub fn require_execution_enabled(cfg: &ExecutionConfig) -> (r: Result<(), Error>)
    requires
        cfg.declared_outputs.wf(),
    ensures
        !cfg.enabled ==> (r matches Err(Error::InvalidState { path, reason }) && path@
            == ".weave/config.toml"@ && reason@ == disabled_reason()),
        cfg.enabled ==> match cfg.policy_problem() {
            None => r is Ok,
            Some(m) => r matches Err(Error::InvalidState { path, reason }) && path@ == ".weave/config.toml"@
                && reason@ == m,
        },
{
    if !cfg.is_enabled() {
        return Err(
            Error::InvalidState {
                path: own(".weave/config.toml"),
                reason: own(
                    "execution is disabled: set [execution] enabled = true in version-controlled .weave/config.toml (env vars cannot enable execution)",
                ),
            },
        );
    }
    match cfg.validate() {
        Ok(()) => Ok(()),
        Err(reason) => Err(Error::InvalidState { path: own(".weave/config.toml"), reason }),
    }
}

/// Why a run of `package` is refused, if it is: the dual gate, the
/// allowlist, the `install` script, and the package's declared outputs.
pub open spec fn run_problem(cfg: ExecutionConfig, package: Seq<char>) -> Option<Seq<char>> {
    let outs = cfg.spec_outputs_for(package);
    if !cfg.enabled {
        Some(disabled_reason())
    } else if cfg.policy_problem() is Some {
        cfg.policy_problem()
    } else if !list_has(cfg.allow_packages.deep_view(), package) {
        Some("package "@ + debug_quoted(package) + " is not in execution.allow_packages"@)
    } else if !list_has(cfg.allow_scripts.deep_view(), "install"@) {
        Some("execution.allow_scripts must include \"install\" for Phase 7 runs"@)
    } else if outs.len() == 0 {
        Some("execution.declared_outputs missing for package "@ + debug_quoted(package))
    } else {
        None
    }
}

/// Index of the first declared output with a problem at or after `i`, or the length.
pub open spec fn first_bad_output(outs: Seq<Seq<char>>, i: int) -> int
    decreases outs.len() - i,
{
    if i < 0 || i >= outs.len() {
        outs.len() as int
    } else if declared_output_problem(outs[i]) is Some {
        i
    } else {
        first_bad_output(outs, i + 1)
    }
}

/// Check that `package` may run under `cfg`; returns its declared outputs.
/// An unsafe declared output fails with the path error of the first one.
pub fn run_gate(cfg: &ExecutionConfig, package: &str) -> (r: Result<Vec<String>, Error>)
    requires
        cfg.declared_outputs.wf(),
    ensures
        match run_problem(*cfg, package@) {
            Some(m) => r matches Err(Error::InvalidState { path, reason }) && path@ == ".weave/config.toml"@
                && reason@ == m,
            None => {
                let outs = cfg.spec_outputs_for(package@);
                let b = first_bad_output(outs, 0);
                if b < outs.len() {
                    r matches Err(e) && e is MaterializationFailed && Some(e.reason_of())
                        == declared_output_problem(outs[b])
                } else {
                    r matches Ok(v) && v.deep_view() == outs
                }
            },
        },
{
    match require_execution_enabled(cfg) {
        Err(e) => {
            return Err(e);
        },
        Ok(()) => {},
    }
    if !cfg.package_allowed(package) {
        let mut m = chars_of("package ");
        extend_str(&mut m, debug_str(package).as_str());
        extend_str(&mut m, " is not in execution.allow_packages");
        return Err(Error::InvalidState { path: own(".weave/config.toml"), reason: string_of(&m) });
    }
    if !vec_has(&cfg.allow_scripts, "install") {
        return Err(
            Error::InvalidState {
                path: own(".weave/config.toml"),
                reason: own("execution.allow_scripts must include \"install\" for Phase 7 runs"),
            },
        );
    }
    let declared = cfg.outputs_for(package);
    if declared.len() == 0 {
        return Err(
            Error::InvalidState {
                path: own(".weave/config.toml"),
                reason: concat_debug("execution.declared_outputs missing for package ", package),
            },
        );
    }
    proof {
        reveal_strlit("install");
    }
    assert(run_problem(*cfg, package@).is_none());
    let mut i: usize = 0;
    while i < declared.len()
        invariant
            i <= declared@.len(),
            declared.deep_view() == cfg.spec_outputs_for(package@),
            run_problem(*cfg, package@).is_none(),
            first_bad_output(declared.deep_view(), 0) == first_bad_output(declared.deep_view(), i as int),
        decreases declared@.len() - i,
    {
        match validate_declared_output(declared[i].as_str()) {
            Err(e) => {
                assert(declared.deep_view()[i as int] == declared@[i as int]@);
                assert(first_bad_output(declared.deep_view(), i as int) == i);
                return Err(e);
            },
            Ok(_) => {},
        }
        i += 1;
    }
    Ok(declared)
}

fn concat_debug(a: &str, b: &str) -> (r: String)
    ensures
        r@ == a@ + debug_quoted(b@),
{
    let mut m = chars_of(a);
    extend_str(&mut m, debug_str(b).as_str());
    string_of(&m)
}

// ---------------------------------------------------------------------------
// Identity
// ---------------------------------------------------------------------------

/// Bytes hashed for a cache key: a tag then each part, each followed by NUL.
pub open spec fn exec_key_bytes(parts: Seq<Seq<char>>) -> Seq<u8>
    decreases parts.len(),
{
    if parts.len() == 0 {
        vstd::utf8::encode_utf8("weave-exec-v1"@) + seq![0u8]
    } else {
        exec_key_bytes(parts.drop_last()) + vstd::utf8::encode_utf8(parts.last()) + seq![0u8]
    }
}

impl ExecIdentity {
    /// The identity's parts, in key order.
    pub open spec fn parts(&self) -> Seq<Seq<char>> {
        seq![
            self.os@,
            self.cpu@,
            self.node_abi@,
            self.node_version@,
            self.profile@,
            self.scripts_digest@,
            self.outputs_digest@,
            self.input_digest@,
        ]
    }

    /// Hex cache key: SHA-256 of a tag and the parts, NUL-separated.
    pub fn cache_key(&self) -> (r: String)
        ensures
            r@ == hex_of(sha256(exec_key_bytes(self.parts()))),
    {
        let ghost p = self.parts();
        let mut buf: Vec<u8> = Vec::new();
        push_part(&mut buf, "weave-exec-v1");
        assert(buf@ =~= exec_key_bytes(p.take(0)));
        push_part(&mut buf, self.os.as_str());
        assert(p.take(1).drop_last() =~= p.take(0));
        assert(buf@ == exec_key_bytes(p.take(1)));
        push_part(&mut buf, self.cpu.as_str());
        assert(p.take(2).drop_last() =~= p.take(1));
        assert(buf@ == exec_key_bytes(p.take(2)));
        push_part(&mut buf, self.node_abi.as_str());
        assert(p.take(3).drop_last() =~= p.take(2));
        assert(buf@ == exec_key_bytes(p.take(3)));
        push_part(&mut buf, self.node_version.as_str());
        assert(p.take(4).drop_last() =~= p.take(3));
        assert(buf@ == exec_key_bytes(p.take(4)));
        push_part(&mut buf, self.profile.as_str());
        assert(p.take(5).drop_last() =~= p.take(4));
        assert(buf@ == exec_key_bytes(p.take(5)));
        push_part(&mut buf, self.scripts_digest.as_str());
        assert(p.take(6).drop_last() =~= p.take(5));
        assert(buf@ == exec_key_bytes(p.take(6)));
        push_part(&mut buf, self.outputs_digest.as_str());
        assert(p.take(7).drop_last() =~= p.take(6));
        assert(buf@ == exec_key_bytes(p.take(7)));
        push_part(&mut buf, self.input_digest.as_str());
        assert(p.take(8).drop_last() =~= p.take(7));
        assert(buf@ == exec_key_bytes(p.take(8)));
        assert(buf@ == exec_key_bytes(p.take(8)));
        assert(p.take(8) =~= p);
        let d = sha256_digest(buf.as_slice());
        let ds = d.as_slice();
        assert(ds@ == d@);
        hex_encode(ds)
    }
}

/// Bytes of a list digest: each item followed by a comma.
pub open spec fn list_bytes(items: Seq<Seq<char>>) -> Seq<u8>
    decreases items.len(),
{
    if items.len() == 0 {
        Seq::empty()
    } else {
        list_bytes(items.drop_last()) + vstd::utf8::encode_utf8(items.last()) + seq![44u8]
    }
}

/// Hex SHA-256 of the sorted items, each followed by a comma.
pub fn list_digest(items: &Vec<String>) -> (r: String)
    ensures
        r@ == hex_of(sha256(list_bytes(sorted_list(items.deep_view())))),
{
    let sorted = sort_strings(items);
    let ghost s = sorted.deep_view();
    let mut buf: Vec<u8> = Vec::new();
    let mut i: usize = 0;
    assert(s.take(0) =~= Seq::<Seq<char>>::empty());
    while i < sorted.len()
        invariant
            i <= s.len(),
            s == sorted.deep_view(),
            buf@ == list_bytes(s.take(i as int)),
        decreases s.len() - i,
    {
        let b = sorted[i].as_str().as_bytes();
        let ghost start = buf@;
        let mut k: usize = 0;
        while k < b.len()
            invariant
                k <= b@.len(),
                b@ == vstd::utf8::encode_utf8(sorted@[i as int]@),
                buf@ == start + b@.take(k as int),
            decreases b@.len() - k,
        {
            buf.push(b[k]);
            k += 1;
            assert(buf@ =~= start + b@.take(k as int));
        }
        assert(b@.take(b@.len() as int) =~= b@);
        buf.push(44u8);
        assert(s.take(i + 1).drop_last() =~= s.take(i as int));
        assert(s.take(i + 1).last() == sorted@[i as int]@);
        i += 1;
    }
    assert(s.take(s.len() as int) =~= s);
    let d = sha256_digest(buf.as_slice());
    let ds = d.as_slice();
    assert(ds@ == d@);
    hex_encode(ds)
}

/// The identity of running `package` under `cfg` on `host` with the given
/// Node ABI and version and input tree digest.
pub fn exec_identity(
    cfg: &ExecutionConfig,
    package: &str,
    host: &HostPlatform,
    node_abi: String,
    node_version: String,
    input_digest: String,
) -> (r: ExecIdentity)
    requires
        cfg.declared_outputs.wf(),
    ensures
        r.os@ == host.os@,
        r.cpu@ == host.cpu@,
        r.node_abi@ == node_abi@,
        r.node_version@ == node_version@,
        r.profile@ == cfg.profile@,
        r.scripts_digest@ == hex_of(sha256(list_bytes(sorted_list(cfg.allow_scripts.deep_view())))),
        r.outputs_digest@ == hex_of(
            sha256(list_bytes(sorted_list(cfg.spec_outputs_for(package@)))),
        ),
        r.input_digest@ == input_digest@,
{
    let declared = cfg.outputs_for(package);
    ExecIdentity {
        os: own(host.npm_os()),
        cpu: own(host.npm_cpu()),
        node_abi,
        node_version,
        profile: own(cfg.profile.as_str()),
        scripts_digest: list_digest(&cfg.allow_scripts),
        outputs_digest: list_digest(&declared),
        input_digest,
    }
}

// ---------------------------------------------------------------------------
// Cache reuse
// ---------------------------------------------------------------------------

/// Why a cache record may not be reused for `identity` with `declared`
/// outputs, if so; the check against the store contents comes after.
pub open spec fn cache_problem(id: ExecIdentity, rec: ExecCacheRecord, declared: Seq<Seq<char>>) -> Option<Seq<char>> {
    if rec.cache_key@ != hex_of(sha256(exec_key_bytes(id.parts()))) {
        Some("execution cache identity mismatch (cache_key)"@)
    } else if rec.os@ != id.os@ || rec.cpu@ != id.cpu@ || rec.node_abi@ != id.node_abi@ || rec.profile@
        != id.profile@ {
        Some("execution cache identity mismatch (platform/ABI/profile)"@)
    } else if sorted_list(rec.sealed_paths.deep_view()) != sorted_list(
        declared.map_values(|d: Seq<char>| replace_all(d, seq!['\\'], seq!['/'])),
    ) {
        Some("execution cache sealed_paths do not match declared_outputs"@)
    } else {
        None
    }
}

/// Check a cache record against the current identity and declared outputs;
/// returns the sealed artifact id to look up in the store.
pub fn check_cache_record(identity: &ExecIdentity, record: &ExecCacheRecord, declared: &Vec<String>) -> (r: Result<ArtifactId, Error>)
    ensures
        match cache_problem(*identity, *record, declared.deep_view()) {
            Some(m) => r matches Err(Error::InvalidState { path, reason }) && path@ == "exec/cache-index"@
                && reason@ == m,
            None => match r {
                Ok(id) => valid_id_input(record.output_artifact_id@) && id@ == crate::text::lower(
                    record.output_artifact_id@,
                ),
                Err(e) => !valid_id_input(record.output_artifact_id@) && e is InvalidState,
            },
        },
{
    let expected = identity.cache_key();
    if !str_eq(record.cache_key.as_str(), expected.as_str()) {
        return Err(
            Error::InvalidState {
                path: own("exec/cache-index"),
                reason: own("execution cache identity mismatch (cache_key)"),
            },
        );
    }
    if !str_eq(record.os.as_str(), identity.os.as_str()) || !str_eq(record.cpu.as_str(), identity.cpu.as_str())
        || !str_eq(record.node_abi.as_str(), identity.node_abi.as_str()) || !str_eq(
        record.profile.as_str(),
        identity.profile.as_str(),
    ) {
        return Err(
            Error::InvalidState {
                path: own("exec/cache-index"),
                reason: own("execution cache identity mismatch (platform/ABI/profile)"),
            },
        );
    }
    let mut norm: Vec<String> = Vec::new();
    let mut i: usize = 0;
    while i < declared.len()
        invariant
            i <= declared@.len(),
            norm.deep_view() == declared.deep_view().take(i as int).map_values(
                |d: Seq<char>| replace_all(d, seq!['\\'], seq!['/']),
            ),
        decreases declared@.len() - i,
    {
        let c = chars_of(declared[i].as_str());
        let n = replace_char(&c, '\\', '/');
        let ghost before = norm.deep_view();
        let ghost dv = declared.deep_view();
        assert(dv.take(i + 1) =~= dv.take(i as int).push(dv[i as int]));
        assert(dv.take(i + 1).map_values(|d: Seq<char>| replace_all(d, seq!['\\'], seq!['/']))
            =~= dv.take(i as int).map_values(|d: Seq<char>| replace_all(d, seq!['\\'], seq!['/'])).push(
            replace_all(dv[i as int], seq!['\\'], seq!['/']),
        ));
        norm.push(string_of(&n));
        assert(norm.deep_view() =~= declared.deep_view().take(i + 1).map_values(
            |d: Seq<char>| replace_all(d, seq!['\\'], seq!['/']),
        ));
        i += 1;
    }
    assert(declared.deep_view().take(declared@.len() as int) =~= declared.deep_view());
    let a = sort_strings(&norm);
    let b = sort_strings(&record.sealed_paths);
    let mut same = a.len() == b.len();
    assert(a.deep_view().len() == a@.len() && b.deep_view().len() == b@.len());
    let mut k: usize = 0;
    while same && k < a.len()
        invariant
            k <= a@.len(),
            same ==> a@.len() == b@.len(),
            same ==> forall|q: int| 0 <= q < k ==> #[trigger] a.deep_view()[q] == b.deep_view()[q],
            !same ==> a.deep_view() != b.deep_view(),
        decreases a@.len() - k,
    {
        if !str_eq(a[k].as_str(), b[k].as_str()) {
            assert(a.deep_view()[k as int] != b.deep_view()[k as int]);
            same = false;
        }
        k += 1;
    }
    if same {
        assert(a.deep_view() =~= b.deep_view());
    }
    if !same {
        return Err(
            Error::InvalidState {
                path: own("exec/cache-index"),
                reason: own("execution cache sealed_paths do not match declared_outputs"),
            },
        );
    }
    ArtifactId::parse(record.output_artifact_id.as_str())
}

// ---------------------------------------------------------------------------
// Applying sealed outputs
// ---------------------------------------------------------------------------

/// A declared output with `\` written as `/`.
pub open spec fn norm_output(d: Seq<char>) -> Seq<char> {
    replace_all(d, seq!['\\'], seq!['/'])
}

/// The files a sealed artifact may be applied with: the declared outputs,
/// normalised, as a sorted set.
pub open spec fn declared_set(declared: Seq<Seq<char>>) -> Seq<Seq<char>> {
    crate::textmap::sorted_set(norm_outputs(declared))
}

/// Each declared output normalised.
pub open spec fn norm_outputs(declared: Seq<Seq<char>>) -> Seq<Seq<char>> {
    declared.map_values(|d: Seq<char>| norm_output(d))
}

/// The first index at or after `i` whose declared output is invalid, or the length.
pub open spec fn first_problem(ds: Seq<Seq<char>>, i: int) -> int
    decreases ds.len() - i,
{
    if i < 0 || i >= ds.len() {
        ds.len() as int
    } else if declared_output_problem(ds[i]).is_some() {
        i
    } else {
        first_problem(ds, i + 1)
    }
}

/// The first index at or after `i` whose item of `a` is not in `b`, or the length.
pub open spec fn first_missing(a: Seq<Seq<char>>, b: Seq<Seq<char>>, i: int) -> int
    decreases a.len() - i,
{
    if i < 0 || i >= a.len() {
        a.len() as int
    } else if !list_has(b, a[i]) {
        i
    } else {
        first_missing(a, b, i + 1)
    }
}

/// What applying a sealed artifact holding the files `sealed` for the
/// declared outputs `declared` decides: the files to copy (the declared set),
/// or why it is refused (`true` when the error is the declared path's own).
/// An empty declaration, an invalid declared path, a sealed file that was not
/// declared, and a declared file that is missing are refused, in that order,
/// each for the first such path.
pub open spec fn sealed_outputs_spec(declared: Seq<Seq<char>>, sealed: Seq<Seq<char>>) -> Result<Seq<Seq<char>>, (bool, Seq<char>)> {
    let b = first_problem(declared, 0);
    let set = declared_set(declared);
    let files = sorted_list(sealed);
    let k = first_missing(files, set, 0);
    let k2 = first_missing(set, files, 0);
    if declared.len() == 0 {
        Err((false, "refusing to apply sealed outputs with empty declared_outputs"@))
    } else if b < declared.len() {
        Err((true, declared_output_problem(declared[b])->Some_0))
    } else if k < files.len() {
        Err((false, "undeclared output in sealed artifact rejected: "@ + files[k] + " (not in declared_outputs)"@))
    } else if k2 < set.len() {
        Err((false, "declared output missing from sealed artifact: "@ + set[k2]))
    } else {
        Ok(set)
    }
}

/// Decide which files of a sealed artifact (holding `sealed`) are applied to
/// `package_dir` for the declared outputs `declared`: exactly the declared
/// set, and only when the artifact holds every declared file and nothing
/// else. A refused declared path keeps its own error; the other refusals are
/// `InvalidState` for the package directory.
pub fn check_sealed_outputs(package_dir: &str, declared: &Vec<String>, sealed: &Vec<String>) -> (r: Result<Vec<String>, Error>)
    ensures
        match sealed_outputs_spec(declared.deep_view(), sealed.deep_view()) {
            Ok(set) => r matches Ok(v) && v.deep_view() == set,
            Err((true, m)) => r matches Err(e) && e is MaterializationFailed && e.reason_of() == m,
            Err((false, m)) => r matches Err(Error::InvalidState { path, reason }) && path@ == package_dir@
                && reason@ == m,
        },
{
    let ghost dv = declared.deep_view();
    if declared.len() == 0 {
        return Err(
            Error::InvalidState {
                path: own(package_dir),
                reason: own("refusing to apply sealed outputs with empty declared_outputs"),
            },
        );
    }
    let mut norm: Vec<String> = Vec::new();
    let mut i: usize = 0;
    assert(norm.deep_view() =~= norm_outputs(dv.take(0)));
    while i < declared.len()
        invariant
            i <= declared@.len(),
            dv == declared.deep_view(),
            first_problem(dv, 0) == first_problem(dv, i as int),
            norm.deep_view() == norm_outputs(dv.take(i as int)),
        decreases declared@.len() - i,
    {
        match validate_declared_output(declared[i].as_str()) {
            Ok(p) => {
                let ghost before = norm.deep_view();
                norm.push(p);
                assert(norm.deep_view() =~= before.push(p@));
                assert(dv.take(i + 1) =~= dv.take(i as int).push(dv[i as int]));
                assert(norm_outputs(dv.take(i + 1)) =~= norm_outputs(dv.take(i as int)).push(norm_output(dv[i as int])));
                assert(declared_output_problem(dv[i as int]).is_none());
            },
            Err(e) => {
                return Err(e);
            },
        }
        i += 1;
    }
    assert(dv.take(dv.len() as int) =~= dv);
    assert(first_problem(dv, 0) == dv.len());
    let set = crate::textmap::sort_dedup(&norm);
    let files = sort_strings(sealed);
    let ghost sv = set.deep_view();
    let ghost fv = files.deep_view();
    let mut k: usize = 0;
    while k < files.len()
        invariant
            k <= fv.len(),
            sv == set.deep_view(),
            fv == files.deep_view(),
            dv == declared.deep_view(),
            dv.len() > 0,
            first_problem(dv, 0) == dv.len(),
            sv == declared_set(dv),
            fv == sorted_list(sealed.deep_view()),
            first_missing(fv, sv, 0) == first_missing(fv, sv, k as int),
        decreases fv.len() - k,
    {
        if !vec_has(&set, files[k].as_str()) {
            let mut m = chars_of("undeclared output in sealed artifact rejected: ");
            extend_str(&mut m, files[k].as_str());
            extend_str(&mut m, " (not in declared_outputs)");
            return Err(Error::InvalidState { path: own(package_dir), reason: string_of(&m) });
        }
        k += 1;
    }
    let mut k2: usize = 0;
    while k2 < set.len()
        invariant
            k2 <= sv.len(),
            sv == set.deep_view(),
            fv == files.deep_view(),
            dv == declared.deep_view(),
            dv.len() > 0,
            first_problem(dv, 0) == dv.len(),
            sv == declared_set(dv),
            fv == sorted_list(sealed.deep_view()),
            first_missing(fv, sv, 0) == fv.len(),
            first_missing(sv, fv, 0) == first_missing(sv, fv, k2 as int),
        decreases sv.len() - k2,
    {
        if !vec_has(&files, set[k2].as_str()) {
            let mut m = chars_of("declared output missing from sealed artifact: ");
            extend_str(&mut m, set[k2].as_str());
            return Err(Error::InvalidState { path: own(package_dir), reason: string_of(&m) });
        }
        k2 += 1;
    }
    Ok(set)
}

// ---------------------------------------------------------------------------
// Input tree digest
// ---------------------------------------------------------------------------

/// A path with `\` written as `/`.
pub open spec fn slashed(p: Seq<char>) -> Seq<char> {
    replace_all(p, seq!['\\'], seq!['/'])
}

/// Each path with `\` written as `/`.
pub open spec fn slashed_all(ps: Seq<Seq<char>>) -> Seq<Seq<char>> {
    ps.map_values(|e: Seq<char>| slashed(e))
}

/// The files of a package tree that its digest covers, in the order given:
/// each path with `\` written as `/`, the excluded paths left out.
pub open spec fn kept_files(files: Seq<(Seq<char>, Seq<u8>)>, exclude: Seq<Seq<char>>) -> Seq<(Seq<char>, Seq<u8>)>
    decreases files.len(),
{
    if files.len() == 0 {
        Seq::empty()
    } else {
        let rest = kept_files(files.drop_last(), exclude);
        let f = files.last();
        if list_has(slashed_all(exclude), slashed(f.0)) {
            rest
        } else {
            rest.push((slashed(f.0), f.1))
        }
    }
}

/// `x` placed before the first file whose path sorts after its path.
pub open spec fn insert_file(s: Seq<(Seq<char>, Seq<u8>)>, x: (Seq<char>, Seq<u8>)) -> Seq<(Seq<char>, Seq<u8>)>
    decreases s.len(),
{
    if s.len() == 0 {
        seq![x]
    } else if crate::textmap::lex_lt(x.0, s[0].0) {
        seq![x] + s
    } else {
        seq![s[0]] + insert_file(s.skip(1), x)
    }
}

/// Files sorted by path, equal paths in their original order.
pub open spec fn sort_files(s: Seq<(Seq<char>, Seq<u8>)>) -> Seq<(Seq<char>, Seq<u8>)>
    decreases s.len(),
{
    if s.len() == 0 {
        Seq::empty()
    } else {
        insert_file(sort_files(s.drop_last()), s.last())
    }
}

/// The files a package tree digest covers, in digest order.
pub open spec fn digested_files(files: Seq<(Seq<char>, Seq<u8>)>, exclude: Seq<Seq<char>>) -> Seq<(Seq<char>, Seq<u8>)> {
    sort_files(kept_files(files, exclude))
}

/// The bytes hashed for a package tree: for each file in order, its path in
/// UTF-8, a zero byte, its contents and a zero byte.
pub open spec fn tree_digest_bytes(files: Seq<(Seq<char>, Seq<u8>)>) -> Seq<u8>
    decreases files.len(),
{
    if files.len() == 0 {
        Seq::empty()
    } else {
        tree_digest_bytes(files.drop_last()) + vstd::utf8::encode_utf8(files.last().0) + seq![0u8]
            + files.last().1 + seq![0u8]
    }
}

/// Inserting at the first position whose path sorts after `x` is `insert_file`.
pub proof fn lemma_insert_file_at(s: Seq<(Seq<char>, Seq<u8>)>, x: (Seq<char>, Seq<u8>), p: int)
    requires
        0 <= p <= s.len(),
        forall|q: int| 0 <= q < p ==> !crate::textmap::lex_lt(x.0, #[trigger] s[q].0),
        p == s.len() || crate::textmap::lex_lt(x.0, s[p].0),
    ensures
        insert_file(s, x) == s.insert(p, x),
    decreases p,
{
    if p == 0 {
        assert(s.insert(0, x) =~= seq![x] + s);
        if s.len() == 0 {
            assert(seq![x] + s =~= seq![x]);
        }
    } else {
        assert(!crate::textmap::lex_lt(x.0, s[0].0));
        lemma_insert_file_at(s.skip(1), x, p - 1);
        assert(seq![s[0]] + s.skip(1).insert(p - 1, x) =~= s.insert(p, x));
    }
}

/// Pairs of a path and borrowed contents, by their plain values.
pub open spec fn file_views(s: Seq<(String, &Vec<u8>)>) -> Seq<(Seq<char>, Seq<u8>)> {
    s.map_values(|f: (String, &Vec<u8>)| (f.0@, f.1@))
}

/// Files (by their plain values) given as owned pairs.
pub open spec fn owned_views(s: Seq<(String, Vec<u8>)>) -> Seq<(Seq<char>, Seq<u8>)> {
    s.map_values(|f: (String, Vec<u8>)| (f.0@, f.1@))
}

/// The digest of a package tree given its regular files as (relative path,
/// contents) pairs: SHA-256, in lower-case hex, of each kept file's path, a
/// zero byte, its contents and a zero byte, files sorted by path. Paths use
/// `/`; paths in `exclude` (the declared outputs) are left out, so applying
/// sealed outputs does not change the digest.
pub fn digest_tree_entries(files: &Vec<(String, Vec<u8>)>, exclude: &Vec<String>) -> (r: String)
    ensures
        r@ == hex_of(sha256(tree_digest_bytes(digested_files(owned_views(files@), exclude.deep_view())))),
{
    let ghost fv = owned_views(files@);
    let ghost xv = exclude.deep_view();
    let mut ex: Vec<String> = Vec::new();
    let mut i: usize = 0;
    while i < exclude.len()
        invariant
            i <= xv.len(),
            xv == exclude.deep_view(),
            ex.deep_view() == slashed_all(xv.take(i as int)),
        decreases xv.len() - i,
    {
        let n = replace_char(&chars_of(exclude[i].as_str()), '\\', '/');
        let ghost before = ex.deep_view();
        ex.push(string_of(&n));
        assert(ex.deep_view() =~= before.push(slashed(xv[i as int])));
        assert(slashed_all(xv.take(i + 1)) =~= slashed_all(xv.take(i as int)).push(slashed(xv[i as int])));
        i += 1;
    }
    assert(xv.take(xv.len() as int) =~= xv);
    let mut sorted: Vec<(String, &Vec<u8>)> = Vec::new();
    let mut k: usize = 0;
    assert(fv.take(0) =~= Seq::<(Seq<char>, Seq<u8>)>::empty());
    assert(file_views(sorted@) =~= Seq::<(Seq<char>, Seq<u8>)>::empty());
    while k < files.len()
        invariant
            k <= fv.len(),
            fv == owned_views(files@),
            ex.deep_view() == slashed_all(xv),
            file_views(sorted@) == sort_files(kept_files(fv.take(k as int), xv)),
        decreases fv.len() - k,
    {
        assert(fv.take(k + 1).drop_last() =~= fv.take(k as int));
        assert(fv.take(k + 1).last() == fv[k as int]);
        let n = replace_char(&chars_of(files[k].0.as_str()), '\\', '/');
        let path = string_of(&n);
        let ghost prev = kept_files(fv.take(k as int), xv);
        assert(fv[k as int] == (files@[k as int].0@, files@[k as int].1@));
        if !vec_has(&ex, path.as_str()) {
            assert(kept_files(fv.take(k + 1), xv) == prev.push((path@, files@[k as int].1@)));
            assert(kept_files(fv.take(k + 1), xv).drop_last() =~= prev);
            let ghost ov = file_views(sorted@);
            let ghost x = (path@, files[k as int].1@);
            let mut j: usize = 0;
            while j < sorted.len() && !(crate::textmap::lex_order(&n, &chars_of(sorted[j].0.as_str())) < 0)
                invariant
                    j <= sorted@.len(),
                    ov == file_views(sorted@),
                    n@ == x.0,
                    forall|q: int| 0 <= q < j ==> !crate::textmap::lex_lt(x.0, #[trigger] ov[q].0),
                decreases sorted@.len() - j,
            {
                j += 1;
            }
            proof {
                lemma_insert_file_at(ov, x, j as int);
            }
            sorted.insert(j, (path, &files[k].1));
            assert(file_views(sorted@) =~= ov.insert(j as int, x));
        } else {
            assert(kept_files(fv.take(k + 1), xv) == prev);
        }
        k += 1;
    }
    assert(fv.take(fv.len() as int) =~= fv);
    let ghost dv = file_views(sorted@);
    let mut buf: Vec<u8> = Vec::new();
    let mut m: usize = 0;
    assert(tree_digest_bytes(dv.take(0)) =~= Seq::<u8>::empty());
    while m < sorted.len()
        invariant
            m <= dv.len(),
            dv == file_views(sorted@),
            buf@ == tree_digest_bytes(dv.take(m as int)),
        decreases dv.len() - m,
    {
        assert(dv.take(m + 1).drop_last() =~= dv.take(m as int));
        assert(dv.take(m + 1).last() == dv[m as int]);
        crate::fetch::push_part(&mut buf, sorted[m].0.as_str());
        let data = sorted[m].1;
        let ghost mid = buf@;
        let mut q: usize = 0;
        while q < data.len()
            invariant
                q <= data@.len(),
                buf@ == mid + data@.take(q as int),
            decreases data@.len() - q,
        {
            buf.push(data[q]);
            q += 1;
            assert(buf@ =~= mid + data@.take(q as int));
        }
        assert(data@.take(data@.len() as int) =~= data@);
        buf.push(0u8);
        assert(buf@ =~= tree_digest_bytes(dv.take(m + 1)));
        m += 1;
    }
    assert(dv.take(dv.len() as int) =~= dv);
    let d = sha256_digest(buf.as_slice());
    hex_encode(d.as_slice())
}

/// The cache identity of running `package` on its input tree `files`
/// (relative path, contents) under `cfg`, on `host` with the given Node ABI
/// and version: the tree is digested without the package's declared outputs.
pub fn build_exec_identity(
    cfg: &ExecutionConfig,
    package: &str,
    host: &HostPlatform,
    node_abi: String,
    node_version: String,
    files: &Vec<(String, Vec<u8>)>,
) -> (r: ExecIdentity)
    requires
        cfg.declared_outputs.wf(),
    ensures
        r.os@ == host.os@,
        r.cpu@ == host.cpu@,
        r.node_abi@ == node_abi@,
        r.node_version@ == node_version@,
        r.profile@ == cfg.profile@,
        r.scripts_digest@ == hex_of(sha256(list_bytes(sorted_list(cfg.allow_scripts.deep_view())))),
        r.outputs_digest@ == hex_of(sha256(list_bytes(sorted_list(cfg.spec_outputs_for(package@))))),
        r.input_digest@ == hex_of(
            sha256(tree_digest_bytes(digested_files(owned_views(files@), cfg.spec_outputs_for(package@)))),
        ),
{
    let declared = cfg.outputs_for(package);
    let input_digest = digest_tree_entries(files, &declared);
    exec_identity(cfg, package, host, node_abi, node_version, input_digest)
}

/// The Node ABI and version in the output of the `node` probe (its `abi`
/// and `ver` strings, empty when missing); an empty ABI is refused.
pub fn node_identity_of(v: &JsonValue) -> (r: Result<(String, String), Error>)
    ensures
        ({
            let abi = json_text_or_empty(json_get(*v, "abi"@));
            let ver = json_text_or_empty(json_get(*v, "ver"@));
            if abi.len() == 0 {
                r matches Err(Error::InvalidState { path, reason }) && path@ == "node"@ && reason@
                    == "empty Node ABI"@
            } else {
                r matches Ok((a, n)) && a@ == abi && n@ == ver
            }
        }),
{
    let abi = match v.text_at("abi") {
        Some(a) => a,
        None => String::new(),
    };
    let ver = match v.text_at("ver") {
        Some(n) => n,
        None => String::new(),
    };
    proof {
        reveal_strlit("");
    }
    if abi.as_str().is_empty() {
        return Err(Error::InvalidState { path: own("node"), reason: own("empty Node ABI") });
    }
    Ok((abi, ver))
}

} // verus!
