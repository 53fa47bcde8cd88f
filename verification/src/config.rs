//! Project-local configuration and the execution policy it carries.
//!
//! Execution is enabled only by the version-controlled config (`enabled`);
//! nothing in the environment is consulted.
use vstd::prelude::*;
use crate::error::Error;
use crate::integrity::{sri_error, valid_sri, Integrity};
use crate::textmap::TextMap;
use crate::text::{
    after_last_char, after_last_char_chars, before_char, before_char_chars, chars_of, concat,
    copy_opt, copy_strings, debug_quoted, debug_str, decimal, decimal_string, extend_chars,
    extend_str, find, find_chars, has_char, has_char_chars, lemma_find, list_has, lower,
    lower_chars, occurs_at, opt_view, own, slice, str_eq, string_of, trim, trim_chars, vec_has,
    ascii_non_letter, lemma_cut_keeps_lack, lemma_cut_lacks, lemma_lower_cut, lemma_lower_find,
    lemma_lower_idem, lemma_lower_keeps_lack, lemma_lower_subrange, lemma_lower_trim,
};

verus! {

/// Current on-disk config schema version.
pub const WEAVE_CONFIG_VERSION: u32 = 1;

/// Materialization format version (environment identity input).
pub fn materialization_version() -> (r: &'static str)
    ensures
        r@ == "4"@,
{
    "4"
}

/// One explicitly configured prebuild artifact fetch.
#[derive(Debug, PartialEq, Eq)]
pub struct PrebuildFetchSpec {
    /// Package name (must also appear in `allow_packages` to run).
    pub package: String,
    /// Absolute HTTPS URL to the prebuild artifact.
    pub url: String,
    /// Required SRI (`sha256-…` / `sha512-…`). Missing integrity fails closed.
    pub integrity: String,
    /// Relative output path under the package root (must be in declared_outputs).
    pub output: String,
    /// When set, host Node ABI must match or the fetch is refused.
    pub node_abi: Option<String>,
    /// When set, host npm OS token must match.
    pub os: Option<String>,
    /// When set, host npm CPU token must match.
    pub cpu: Option<String>,
}

impl PrebuildFetchSpec {
    /// Field-wise equality of views.
    pub open spec fn same_as(&self, o: &PrebuildFetchSpec) -> bool {
        self.package@ == o.package@ && self.url@ == o.url@ && self.integrity@ == o.integrity@
            && self.output@ == o.output@ && opt_view(self.node_abi) == opt_view(o.node_abi)
            && opt_view(self.os) == opt_view(o.os) && opt_view(self.cpu) == opt_view(o.cpu)
    }

    /// A copy of this spec.
    pub fn duplicate(&self) -> (r: PrebuildFetchSpec)
        ensures
            r.same_as(self),
    {
        PrebuildFetchSpec {
            package: self.package.clone(),
            url: self.url.clone(),
            integrity: self.integrity.clone(),
            output: self.output.clone(),
            node_abi: copy_opt(&self.node_abi),
            os: copy_opt(&self.os),
            cpu: copy_opt(&self.cpu),
        }
    }
}

/// Narrowly scoped allowlisted prebuild download policy.
#[derive(Debug, PartialEq, Eq)]
pub struct PrebuildConfig {
    /// Exact hostnames permitted for HTTPS fetches (no wildcards).
    pub allow_hosts: Vec<String>,
    /// Explicit per-package fetch specifications (no URL discovery).
    pub fetches: Vec<PrebuildFetchSpec>,
}

/// Copy a list of fetch specs.
pub fn duplicate_fetches(v: &Vec<PrebuildFetchSpec>) -> (r: Vec<PrebuildFetchSpec>)
    ensures
        r@.len() == v@.len(),
        forall|i: int| 0 <= i < v@.len() ==> #[trigger] r@[i].same_as(&v@[i]),
{
    let mut out: Vec<PrebuildFetchSpec> = Vec::new();
    let mut i: usize = 0;
    while i < v.len()
        invariant
            i <= v.len(),
            out@.len() == i,
            forall|j: int| 0 <= j < i ==> #[trigger] out@[j].same_as(&v@[j]),
        decreases v.len() - i,
    {
        out.push(v[i].duplicate());
        i += 1;
    }
    out
}

impl PrebuildConfig {
    /// An empty policy: no hosts, no fetches.
    pub fn empty() -> (r: PrebuildConfig)
        ensures
            r.allow_hosts@.len() == 0,
            r.fetches@.len() == 0,
    {
        PrebuildConfig { allow_hosts: Vec::new(), fetches: Vec::new() }
    }

    /// A copy of this policy.
    pub fn duplicate(&self) -> (r: PrebuildConfig)
        ensures
            r.allow_hosts.deep_view() == self.allow_hosts.deep_view(),
            r.fetches@.len() == self.fetches@.len(),
            forall|i: int| 0 <= i < self.fetches@.len() ==> #[trigger] r.fetches@[i].same_as(
                &self.fetches@[i],
            ),
    {
        PrebuildConfig {
            allow_hosts: copy_strings(&self.allow_hosts),
            fetches: duplicate_fetches(&self.fetches),
        }
    }
}

/// Sandboxed lifecycle/native execution policy.
#[derive(Debug)]
pub struct ExecutionConfig {
    /// Master switch. Default `false`.
    pub enabled: bool,
    /// Sandbox network profile: `"offline"` (default) or `"prebuild-fetch"`.
    pub profile: String,
    /// Package names allowed to run. Empty means none (even when enabled).
    pub allow_packages: Vec<String>,
    /// Lifecycle script names allowed (e.g. `install`).
    pub allow_scripts: Vec<String>,
    /// Declared relative output paths per package name that may be sealed.
    pub declared_outputs: TextMap<Vec<String>>,
    /// Allow weaker sandbox if bwrap is missing (always refused).
    pub allow_weak_sandbox: bool,
    /// Allowlisted prebuild fetch policy. Ignored when profile is offline.
    pub prebuild: PrebuildConfig,
}

/// Contents of `.weave/config.toml`.
#[derive(Debug)]
pub struct ProjectConfig {
    /// Schema version.
    pub version: u32,
    /// Path hint for the global store (informational).
    pub store_path: String,
    /// Materialization format version used when environments are created.
    pub materialization_version: String,
    /// Opt-in sandboxed execution. Defaults to disabled.
    pub execution: ExecutionConfig,
}

// ---------------------------------------------------------------------------
// URL host parsing
// ---------------------------------------------------------------------------

/// Host part of the authority `rest` (text after `scheme://`): up to the first
/// `/`, after the last `@`, up to the first `:`, lower-cased.
pub open spec fn url_host(rest: Seq<char>) -> Seq<char> {
    lower(before_char(after_last_char(before_char(rest, '/'), '@'), ':'))
}

/// Result of parsing `scheme://host/...`.
pub open spec fn parse_https_host_spec(raw: Seq<char>) -> Result<(Seq<char>, Seq<char>), Seq<char>> {
    let t = trim(raw);
    let i = find(t, "://"@);
    if i < 0 {
        Err("URL must include a scheme"@)
    } else {
        let scheme = lower(t.take(i));
        if scheme != "https"@ && scheme != "http"@ {
            Err("unsupported URL scheme "@ + debug_quoted(scheme))
        } else {
            let host = url_host(t.skip(i + 3));
            if host.len() == 0 || host.contains(' ') {
                Err("URL missing host"@)
            } else {
                Ok((scheme, host))
            }
        }
    }
}

/// Parse `https://host/...` into (scheme, host). Fails closed on anything else.
pub fn parse_https_host(raw: &str) -> (r: Result<(String, String), String>)
    ensures
        match (r, parse_https_host_spec(raw@)) {
            (Ok((s, h)), Ok((s2, h2))) => s@ == s2 && h@ == h2,
            (Err(e), Err(e2)) => e@ == e2,
            _ => false,
        },
{
    let rc = chars_of(raw);
    let t = trim_chars(&rc);
    let sep = chars_of("://");
    proof {
        lemma_find(t@, sep@);
    }
    let i = match find_chars(&t, &sep) {
        None => {
            return Err(own("URL must include a scheme"));
        },
        Some(i) => i,
    };
    assert(occurs_at(t@, sep@, i as int));
    proof {
        reveal_strlit("://");
    }
    let sl = sep.len();
    assert(i + sl <= t.len());
    let scheme_raw = slice(&t, 0, i);
    let scheme = lower_chars(&scheme_raw);
    let scheme_s = string_of(&scheme);
    if !str_eq(scheme_s.as_str(), "https") && !str_eq(scheme_s.as_str(), "http") {
        return Err(concat("unsupported URL scheme ", debug_str(scheme_s.as_str()).as_str()));
    }
    let rest = slice(&t, i + sl, t.len());
    assert(rest@ =~= t@.skip(i + 3));
    let hp = before_char_chars(&rest, '/');
    let after_at = after_last_char_chars(&hp, '@');
    let h0 = before_char_chars(&after_at, ':');
    let host = lower_chars(&h0);
    if host.len() == 0 || has_char_chars(&host, ' ') {
        return Err(own("URL missing host"));
    }
    Ok((scheme_s, string_of(&host)))
}

/// A parsed host has no white space or separators, is non-empty and
/// lower-case; the scheme is `https` or `http`.
pub open spec fn host_shape(sh: (Seq<char>, Seq<char>)) -> bool {
    &&& sh.0 == "https"@ || sh.0 == "http"@
    &&& sh.1.len() > 0
    &&& lower(sh.1) == sh.1
    &&& !sh.1.contains(' ') && !sh.1.contains('/') && !sh.1.contains(':') && !sh.1.contains('@')
}

/// URL parsing ignores ASCII case, and a host it gives is non-empty,
/// lower-case, and holds no space, `/`, `:` or `@`.
pub proof fn lemma_https_host_shape(raw: Seq<char>)
    ensures
        parse_https_host_spec(raw) matches Ok(sh) ==> host_shape(sh),
        parse_https_host_spec(lower(raw)) == parse_https_host_spec(raw),
{
    let t = trim(raw);
    let sep = "://"@;
    reveal_strlit("://");
    assert(sep =~= seq![':', '/', '/']);
    assert forall|k: int| 0 <= k < sep.len() implies ascii_non_letter(#[trigger] sep[k]) by {}
    lemma_lower_trim(raw);
    lemma_lower_find(t, sep);
    let i = find(t, sep);
    if i >= 0 {
        lemma_find(t, sep);
        assert(i + 3 <= t.len());
        lemma_lower_subrange(t, 0, i);
        lemma_lower_subrange(t, i + 3, t.len() as int);
        lemma_lower_idem(t.take(i));
        let rest = t.skip(i + 3);
        let a = before_char(rest, '/');
        let b = after_last_char(a, '@');
        let c = before_char(b, ':');
        lemma_lower_cut(rest, '/');
        lemma_lower_cut(a, '@');
        lemma_lower_cut(b, ':');
        lemma_lower_idem(c);
        assert(url_host(lower(rest)) == lower(lower(c)));
        lemma_cut_lacks(rest, '/');
        lemma_cut_keeps_lack(a, '@', '/');
        lemma_cut_lacks(a, '@');
        lemma_cut_keeps_lack(b, ':', '/');
        lemma_cut_keeps_lack(b, ':', '@');
        lemma_cut_lacks(b, ':');
        lemma_lower_keeps_lack(c, '/');
        lemma_lower_keeps_lack(c, '@');
        lemma_lower_keeps_lack(c, ':');
    }
}

// ---------------------------------------------------------------------------
// Validation
// ---------------------------------------------------------------------------

/// An allow_hosts entry that is not an exact host name.
pub open spec fn bad_host_entry(h: Seq<char>) -> bool {
    h.len() == 0 || h.contains('/') || h.contains(':') || h.contains('*')
}

/// Allowed lifecycle script names.
pub open spec fn script_name_ok(n: Seq<char>) -> bool {
    n == "preinstall"@ || n == "install"@ || n == "postinstall"@ || n == "prepare"@
}

/// The fetch specs of `s` whose package is `name`, in order.
pub open spec fn fetches_named(s: Seq<PrebuildFetchSpec>, name: Seq<char>) -> Seq<PrebuildFetchSpec>
    decreases s.len(),
{
    if s.len() == 0 {
        Seq::empty()
    } else if s.last().package@ == name {
        fetches_named(s.drop_last(), name).push(s.last())
    } else {
        fetches_named(s.drop_last(), name)
    }
}

/// Index of the first bad allow_hosts entry at or after `i`, or `l.len()`.
pub open spec fn first_bad_host(l: Seq<Seq<char>>, i: int) -> int
    decreases l.len() - i,
{
    if i < 0 || i >= l.len() {
        l.len() as int
    } else if bad_host_entry(l[i]) {
        i
    } else {
        first_bad_host(l, i + 1)
    }
}

/// Index of the first unsupported script name at or after `i`, or `l.len()`.
pub open spec fn first_bad_script(l: Seq<Seq<char>>, i: int) -> int
    decreases l.len() - i,
{
    if i < 0 || i >= l.len() {
        l.len() as int
    } else if !script_name_ok(l[i]) {
        i
    } else {
        first_bad_script(l, i + 1)
    }
}

/// The problem with one fetch spec, if any (checks in order), given the
/// allowed hosts and the declared outputs of each package.
pub open spec fn fetch_problem_in(
    hosts: Seq<Seq<char>>,
    outputs: spec_fn(Seq<char>) -> Seq<Seq<char>>,
    f: PrebuildFetchSpec,
) -> Option<Seq<char>> {
    let pkg = debug_quoted(f.package@);
    let head = "execution.prebuild.fetches for "@ + pkg;
    if f.package@.len() == 0 {
        Some("execution.prebuild.fetches[].package must be non-empty"@)
    } else if trim(f.integrity@).len() == 0 {
        Some(head + " missing required integrity (fail closed)"@)
    } else if !valid_sri(f.integrity@) {
        Some(head + " has invalid integrity: "@ + sri_error(f.integrity@))
    } else {
        match parse_https_host_spec(f.url@) {
            Err(e) => Some(head + ": "@ + e),
            Ok((scheme, host)) => if scheme != "https"@ {
                Some(head + ": only https URLs are allowed"@)
            } else if host.len() == 0 {
                Some(head + ": URL missing host"@)
            } else if !list_has(hosts, host) {
                Some(head + ": host "@ + debug_quoted(host) + " is not in allow_hosts"@)
            } else if !list_has(outputs(f.package@), f.output@) {
                Some(head + ": output "@ + debug_quoted(f.output@) + " is not in declared_outputs"@)
            } else {
                None
            },
        }
    }
}

/// Index of the first fetch of `l` with a problem at or after `i`, or `l.len()`.
pub open spec fn first_fetch_problem_in(
    hosts: Seq<Seq<char>>,
    outputs: spec_fn(Seq<char>) -> Seq<Seq<char>>,
    l: Seq<PrebuildFetchSpec>,
    i: int,
) -> int
    decreases l.len() - i,
{
    if i < 0 || i >= l.len() {
        l.len() as int
    } else if fetch_problem_in(hosts, outputs, l[i]).is_some() {
        i
    } else {
        first_fetch_problem_in(hosts, outputs, l, i + 1)
    }
}

/// The first problem of a prebuild section, if any: a host entry that is not
/// an exact host name, else the first fetch with a problem.
pub open spec fn prebuild_problem_in(
    hosts: Seq<Seq<char>>,
    fetches: Seq<PrebuildFetchSpec>,
    outputs: spec_fn(Seq<char>) -> Seq<Seq<char>>,
) -> Option<Seq<char>> {
    if fetches.len() == 0 {
        None
    } else {
        let hi = first_bad_host(hosts, 0);
        if hi < hosts.len() {
            Some(
                "execution.prebuild.allow_hosts entry "@ + debug_quoted(hosts[hi])
                    + " must be an exact hostname"@,
            )
        } else {
            let fi = first_fetch_problem_in(hosts, outputs, fetches, 0);
            if fi < fetches.len() {
                fetch_problem_in(hosts, outputs, fetches[fi])
            } else {
                None
            }
        }
    }
}

/// Fetch specs with equal views have the same first problem.
pub proof fn lemma_first_fetch_problem_views(
    hosts: Seq<Seq<char>>,
    outputs: spec_fn(Seq<char>) -> Seq<Seq<char>>,
    a: Seq<PrebuildFetchSpec>,
    b: Seq<PrebuildFetchSpec>,
    i: int,
)
    requires
        a.len() == b.len(),
        forall|j: int| 0 <= j < a.len() ==> #[trigger] a[j].same_as(&b[j]),
    ensures
        first_fetch_problem_in(hosts, outputs, a, i) == first_fetch_problem_in(hosts, outputs, b, i),
        forall|j: int| 0 <= j < a.len() ==> fetch_problem_in(hosts, outputs, #[trigger] a[j])
            == fetch_problem_in(hosts, outputs, b[j]),
    decreases a.len() - i,
{
    assert forall|j: int| 0 <= j < a.len() implies fetch_problem_in(hosts, outputs, #[trigger] a[j])
        == fetch_problem_in(hosts, outputs, b[j]) by {
        assert(a[j].same_as(&b[j]));
    }
    if 0 <= i < a.len() {
        lemma_first_fetch_problem_views(hosts, outputs, a, b, i + 1);
    }
}

/// The first problem index lies between `i` and the length, and names a fetch with a problem.
pub proof fn lemma_first_fetch_problem_bounds(
    hosts: Seq<Seq<char>>,
    outputs: spec_fn(Seq<char>) -> Seq<Seq<char>>,
    l: Seq<PrebuildFetchSpec>,
    i: int,
)
    requires
        0 <= i <= l.len(),
    ensures
        i <= first_fetch_problem_in(hosts, outputs, l, i) <= l.len(),
        first_fetch_problem_in(hosts, outputs, l, i) < l.len() ==> fetch_problem_in(
            hosts,
            outputs,
            l[first_fetch_problem_in(hosts, outputs, l, i)],
        ).is_some(),
    decreases l.len() - i,
{
    if i < l.len() && fetch_problem_in(hosts, outputs, l[i]).is_none() {
        lemma_first_fetch_problem_bounds(hosts, outputs, l, i + 1);
    }
}

impl ExecutionConfig {
    /// Declared outputs of `package` (empty when none are declared).
    pub open spec fn spec_outputs_for(&self, package: Seq<char>) -> Seq<Seq<char>> {
        match self.declared_outputs.spec_get(package) {
            Some(v) => v,
            None => Seq::empty(),
        }
    }

    /// Declared outputs as a function of the package name.
    pub open spec fn outputs_fn(&self) -> spec_fn(Seq<char>) -> Seq<Seq<char>> {
        |q: Seq<char>| self.spec_outputs_for(q)
    }

    /// The problem with one fetch spec, if any (checks in order).
    pub open spec fn fetch_problem(&self, f: PrebuildFetchSpec) -> Option<Seq<char>> {
        fetch_problem_in(self.prebuild.allow_hosts.deep_view(), self.outputs_fn(), f)
    }

    /// Index of the first fetch with a problem at or after `i`, or `l.len()`.
    pub open spec fn first_fetch_problem(&self, l: Seq<PrebuildFetchSpec>, i: int) -> int {
        first_fetch_problem_in(self.prebuild.allow_hosts.deep_view(), self.outputs_fn(), l, i)
    }

    /// The first problem of the prebuild section, if any.
    pub open spec fn prebuild_problem(&self) -> Option<Seq<char>> {
        prebuild_problem_in(
            self.prebuild.allow_hosts.deep_view(),
            self.prebuild.fetches@,
            self.outputs_fn(),
        )
    }

    /// The first policy problem, if any: profile, weak sandbox, scripts, prebuild.
    pub open spec fn policy_problem(&self) -> Option<Seq<char>> {
        let p = self.profile@;
        let scripts = self.allow_scripts.deep_view();
        let si = first_bad_script(scripts, 0);
        if p == "open"@ {
            Some(
                "execution.profile \"open\" is rejected (ADR-0018); use offline or prebuild-fetch"@,
            )
        } else if p != "offline"@ && p != "prebuild-fetch"@ {
            Some(
                "execution.profile "@ + debug_quoted(p)
                    + " is not supported; use \"offline\" or \"prebuild-fetch\""@,
            )
        } else if self.allow_weak_sandbox {
            Some("execution.allow_weak_sandbox is not supported (fail closed on bwrap)"@)
        } else if si < scripts.len() {
            Some(
                "execution.allow_scripts contains unsupported script "@ + debug_quoted(
                    scripts[si],
                ),
            )
        } else {
            self.prebuild_problem()
        }
    }
}

impl ExecutionConfig {
    /// Execution disabled, offline profile, nothing allowlisted, `install` scripts.
    pub fn new_default() -> (r: ExecutionConfig)
        ensures
            !r.enabled,
            r.profile@ == "offline"@,
            r.allow_packages@.len() == 0,
            r.allow_scripts.deep_view() == seq!["install"@],
            r.declared_outputs.wf(),
            r.declared_outputs.spec_entries().len() == 0,
            !r.allow_weak_sandbox,
            r.prebuild.allow_hosts@.len() == 0,
            r.prebuild.fetches@.len() == 0,
    {
        let scripts = vec![own("install")];
        assert(scripts.deep_view() =~= seq!["install"@]);
        ExecutionConfig {
            enabled: false,
            profile: own("offline"),
            allow_packages: Vec::new(),
            allow_scripts: scripts,
            declared_outputs: TextMap::new(),
            allow_weak_sandbox: false,
            prebuild: PrebuildConfig::empty(),
        }
    }

    /// True only when the version-controlled config enables execution.
    pub fn is_enabled(&self) -> (r: bool)
        ensures
            r == self.enabled,
    {
        self.enabled
    }

    /// Whether the configured profile permits allowlisted network fetches.
    pub fn allows_prebuild_network(&self) -> (r: bool)
        ensures
            r == (self.profile@ == "prebuild-fetch"@),
    {
        str_eq(self.profile.as_str(), "prebuild-fetch")
    }

    /// Whether `package_name` is on the allow list.
    pub fn package_allowed(&self, package_name: &str) -> (r: bool)
        ensures
            r == list_has(self.allow_packages.deep_view(), package_name@),
    {
        vec_has(&self.allow_packages, package_name)
    }

    /// Declared seal paths for a package (empty when none).
    pub fn outputs_for(&self, package_name: &str) -> (r: Vec<String>)
        requires
            self.declared_outputs.wf(),
        ensures
            r.deep_view() == self.spec_outputs_for(package_name@),
    {
        match self.declared_outputs.get(package_name) {
            Some(v) => copy_strings(v),
            None => {
                let r: Vec<String> = Vec::new();
                assert(r.deep_view() =~= Seq::<Seq<char>>::empty());
                r
            },
        }
    }

    /// Fetch specs configured for `package_name`, in configured order.
    pub fn prebuild_fetches_for(&self, package_name: &str) -> (r: Vec<&PrebuildFetchSpec>)
        ensures
            r@.map_values(|f: &PrebuildFetchSpec| *f) == fetches_named(
                self.prebuild.fetches@,
                package_name@,
            ),
    {
        let mut out: Vec<&PrebuildFetchSpec> = Vec::new();
        let mut i: usize = 0;
        assert(self.prebuild.fetches@.take(0) =~= Seq::<PrebuildFetchSpec>::empty());
        assert(out@.map_values(|f: &PrebuildFetchSpec| *f) =~= Seq::<PrebuildFetchSpec>::empty());
        while i < self.prebuild.fetches.len()
            invariant
                i <= self.prebuild.fetches.len(),
                out@.map_values(|f: &PrebuildFetchSpec| *f) == fetches_named(
                    self.prebuild.fetches@.take(i as int),
                    package_name@,
                ),
            decreases self.prebuild.fetches.len() - i,
        {
            let f = &self.prebuild.fetches[i];
            assert(self.prebuild.fetches@.take(i + 1).drop_last() =~= self.prebuild.fetches@.take(
                i as int,
            ));
            let ghost before = out@.map_values(|f: &PrebuildFetchSpec| *f);
            if str_eq(f.package.as_str(), package_name) {
                out.push(f);
                assert(out@.map_values(|f: &PrebuildFetchSpec| *f) =~= before.push(*f));
            }
            i += 1;
        }
        assert(self.prebuild.fetches@.take(self.prebuild.fetches.len() as int)
            =~= self.prebuild.fetches@);
        out
    }

    /// Problem with one fetch spec, checked in order.
    fn check_fetch(&self, f: &PrebuildFetchSpec) -> (r: Option<String>)
        requires
            self.declared_outputs.wf(),
        ensures
            opt_view(r) == self.fetch_problem(*f),
    {
        let head = concat("execution.prebuild.fetches for ", debug_str(f.package.as_str()).as_str());
        if f.package.as_str().is_empty() {
            return Some(own("execution.prebuild.fetches[].package must be non-empty"));
        }
        let ic = chars_of(f.integrity.as_str());
        if trim_chars(&ic).len() == 0 {
            return Some(concat(head.as_str(), " missing required integrity (fail closed)"));
        }
        match Integrity::parse(f.integrity.as_str()) {
            Err(e) => {
                let mut m = chars_of(head.as_str());
                extend_str(&mut m, " has invalid integrity: ");
                extend_str(&mut m, e.as_str());
                return Some(string_of(&m));
            },
            Ok(_) => {},
        }
        match parse_https_host(f.url.as_str()) {
            Err(e) => {
                let mut m = chars_of(head.as_str());
                extend_str(&mut m, ": ");
                extend_str(&mut m, e.as_str());
                Some(string_of(&m))
            },
            Ok((scheme, host)) => {
                if !str_eq(scheme.as_str(), "https") {
                    Some(concat(head.as_str(), ": only https URLs are allowed"))
                } else if host.as_str().is_empty() {
                    Some(concat(head.as_str(), ": URL missing host"))
                } else if !vec_has(&self.prebuild.allow_hosts, host.as_str()) {
                    let mut m = chars_of(head.as_str());
                    extend_str(&mut m, ": host ");
                    extend_str(&mut m, debug_str(host.as_str()).as_str());
                    extend_str(&mut m, " is not in allow_hosts");
                    Some(string_of(&m))
                } else {
                    let outs = self.outputs_for(f.package.as_str());
                    if !vec_has(&outs, f.output.as_str()) {
                        let mut m = chars_of(head.as_str());
                        extend_str(&mut m, ": output ");
                        extend_str(&mut m, debug_str(f.output.as_str()).as_str());
                        extend_str(&mut m, " is not in declared_outputs");
                        Some(string_of(&m))
                    } else {
                        None
                    }
                }
            },
        }
    }

    fn check_prebuild(&self) -> (r: Option<String>)
        requires
            self.declared_outputs.wf(),
        ensures
            opt_view(r) == self.prebuild_problem(),
    {
        if self.prebuild.fetches.len() == 0 {
            return None;
        }
        let mut i: usize = 0;
        while i < self.prebuild.allow_hosts.len()
            invariant
                i <= self.prebuild.allow_hosts.len(),
                self.prebuild.fetches@.len() > 0,
                first_bad_host(self.prebuild.allow_hosts.deep_view(), 0) == first_bad_host(self.prebuild.allow_hosts.deep_view(), i as int),
            decreases self.prebuild.allow_hosts.len() - i,
        {
            let h = chars_of(self.prebuild.allow_hosts[i].as_str());
            assert(self.prebuild.allow_hosts.deep_view()[i as int] == h@);
            if h.len() == 0 || has_char_chars(&h, '/') || has_char_chars(&h, ':') || has_char_chars(
                &h,
                '*',
            ) {
                assert(bad_host_entry(h@));
                assert(first_bad_host(self.prebuild.allow_hosts.deep_view(), i as int) == i as int);
                assert(first_bad_host(self.prebuild.allow_hosts.deep_view(), 0) == i as int);
                let mut m = chars_of("execution.prebuild.allow_hosts entry ");
                extend_str(&mut m, debug_str(self.prebuild.allow_hosts[i].as_str()).as_str());
                extend_str(&mut m, " must be an exact hostname");
                assert(m@ == "execution.prebuild.allow_hosts entry "@ + debug_quoted(
                    self.prebuild.allow_hosts.deep_view()[i as int],
                ) + " must be an exact hostname"@);
                return Some(string_of(&m));
            }
            assert(!bad_host_entry(h@));
            i += 1;
        }
        let mut j: usize = 0;
        while j < self.prebuild.fetches.len()
            invariant
                j <= self.prebuild.fetches.len(),
                self.prebuild.fetches@.len() > 0,
                self.declared_outputs.wf(),
                first_bad_host(self.prebuild.allow_hosts.deep_view(), 0) == self.prebuild.allow_hosts.deep_view().len(),
                self.first_fetch_problem(self.prebuild.fetches@, 0) == self.first_fetch_problem(self.prebuild.fetches@, j as int),
            decreases self.prebuild.fetches.len() - j,
        {
            let p = self.check_fetch(&self.prebuild.fetches[j]);
            if p.is_some() {
                assert(self.fetch_problem(self.prebuild.fetches@[j as int]).is_some());
                assert(self.first_fetch_problem(self.prebuild.fetches@, j as int) == j as int);
                assert(self.prebuild.fetches@.len() != 0);
                assert(first_bad_host(self.prebuild.allow_hosts.deep_view(), 0)
                    == self.prebuild.allow_hosts.deep_view().len());
                assert(self.first_fetch_problem(self.prebuild.fetches@, 0) == j as int);
                assert(self.prebuild_problem() == self.fetch_problem(self.prebuild.fetches@[j as int]));
                return p;
            }
            j += 1;
        }
        None
    }

    /// Validate execution policy constraints; the error names the first problem.
    pub fn validate(&self) -> (r: Result<(), String>)
        requires
            self.declared_outputs.wf(),
        ensures
            match (r, self.policy_problem()) {
                (Ok(()), None) => true,
                (Err(e), Some(m)) => e@ == m,
                _ => false,
            },
    {
        let p = self.profile.as_str();
        if str_eq(p, "open") {
            return Err(
                own(
                    "execution.profile \"open\" is rejected (ADR-0018); use offline or prebuild-fetch",
                ),
            );
        }
        if !str_eq(p, "offline") && !str_eq(p, "prebuild-fetch") {
            let mut m = chars_of("execution.profile ");
            extend_str(&mut m, debug_str(p).as_str());
            extend_str(&mut m, " is not supported; use \"offline\" or \"prebuild-fetch\"");
            return Err(string_of(&m));
        }
        if self.allow_weak_sandbox {
            return Err(own("execution.allow_weak_sandbox is not supported (fail closed on bwrap)"));
        }
        let mut i: usize = 0;
        while i < self.allow_scripts.len()
            invariant
                i <= self.allow_scripts.len(),
                self.profile@ != "open"@,
                self.profile@ == "offline"@ || self.profile@ == "prebuild-fetch"@,
                !self.allow_weak_sandbox,
                first_bad_script(self.allow_scripts.deep_view(), 0) == first_bad_script(
                    self.allow_scripts.deep_view(),
                    i as int,
                ),
            decreases self.allow_scripts.len() - i,
        {
            let n = self.allow_scripts[i].as_str();
            assert(self.allow_scripts.deep_view()[i as int] == n@);
            if !(str_eq(n, "preinstall") || str_eq(n, "install") || str_eq(n, "postinstall")
                || str_eq(n, "prepare")) {
                assert(!script_name_ok(n@));
                assert(first_bad_script(self.allow_scripts.deep_view(), i as int) == i as int);
                return Err(
                    concat(
                        "execution.allow_scripts contains unsupported script ",
                        debug_str(n).as_str(),
                    ),
                );
            }
            assert(script_name_ok(n@));
            i += 1;
        }
        match self.check_prebuild() {
            Some(m) => Err(m),
            None => Ok(()),
        }
    }
}

impl core::default::Default for ExecutionConfig {
    fn default() -> (r: ExecutionConfig)
        ensures
            !r.enabled,
            r.profile@ == "offline"@,
            r.allow_packages@.len() == 0,
            r.allow_scripts.deep_view() == seq!["install"@],
            r.declared_outputs.wf(),
            r.declared_outputs.spec_entries().len() == 0,
            !r.allow_weak_sandbox,
            r.prebuild.allow_hosts@.len() == 0,
            r.prebuild.fetches@.len() == 0,
    {
        ExecutionConfig::new_default()
    }
}

impl ProjectConfig {
    /// A default config pointing at `store_path`: current schema version,
    /// current materialization version, execution disabled.
    pub fn new(store_path: &str) -> (r: ProjectConfig)
        ensures
            r.version == WEAVE_CONFIG_VERSION,
            r.store_path@ == store_path@,
            r.materialization_version@ == "4"@,
            !r.execution.enabled,
            r.execution.profile@ == "offline"@,
            r.execution.allow_packages@.len() == 0,
            r.execution.allow_scripts.deep_view() == seq!["install"@],
            r.execution.declared_outputs.wf(),
            r.execution.declared_outputs.spec_entries().len() == 0,
            !r.execution.allow_weak_sandbox,
            r.execution.prebuild.allow_hosts@.len() == 0,
            r.execution.prebuild.fetches@.len() == 0,
    {
        ProjectConfig {
            version: WEAVE_CONFIG_VERSION,
            store_path: own(store_path),
            materialization_version: own(materialization_version()),
            execution: ExecutionConfig::new_default(),
        }
    }

    /// Bring a configuration read from `path` to the current schema version.
    /// A missing version (0) or an older one is upgraded with a warning; a
    /// newer one is refused, and so is an `[execution]` table that does not
    /// validate (Weave fails closed).
    pub fn migrate(self, path: &str) -> (r: Result<(ProjectConfig, Vec<String>), Error>)
        requires
            self.execution.declared_outputs.wf(),
        ensures
            self.version > WEAVE_CONFIG_VERSION ==> (r matches Err(Error::InvalidState { path: p, reason })
                && p@ == path@ && reason@ == "config version "@ + decimal(self.version as nat)
                + " is newer than this Weave binary supports (max 1). Upgrade Weave or restore an older config."@),
            self.version <= WEAVE_CONFIG_VERSION ==> match self.execution.policy_problem() {
                Some(m) => r matches Err(Error::InvalidState { path: p, reason }) && p@ == path@
                    && reason@ == m + ". Fix [execution] in .weave/config.toml — Weave fails closed (docs/adoption.md)."@,
                None => r matches Ok((c, w)) && c.version == WEAVE_CONFIG_VERSION && c.store_path
                    == self.store_path && c.materialization_version == self.materialization_version
                    && c.execution == self.execution && w.deep_view() == if self.version == 0 {
                    seq!["config version missing/0 — treating as Weave config v1 (write-back recommended)"@]
                } else if self.version < WEAVE_CONFIG_VERSION {
                    seq!["config version "@ + decimal(self.version as nat)
                        + " is older than current (1); fields use defaults for missing keys"@]
                } else {
                    Seq::<Seq<char>>::empty()
                },
            },
    {
        let mut cfg = self;
        let mut warnings: Vec<String> = Vec::new();
        if cfg.version == 0 {
            warnings.push(own("config version missing/0 — treating as Weave config v1 (write-back recommended)"));
            cfg.version = WEAVE_CONFIG_VERSION;
        } else if cfg.version > WEAVE_CONFIG_VERSION {
            let mut m = chars_of("config version ");
            extend_str(&mut m, decimal_string(cfg.version as u64).as_str());
            extend_str(&mut m, " is newer than this Weave binary supports (max 1). Upgrade Weave or restore an older config.");
            return Err(Error::InvalidState { path: own(path), reason: string_of(&m) });
        } else if cfg.version < WEAVE_CONFIG_VERSION {
            let mut m = chars_of("config version ");
            extend_str(&mut m, decimal_string(cfg.version as u64).as_str());
            extend_str(&mut m, " is older than current (1); fields use defaults for missing keys");
            warnings.push(string_of(&m));
            cfg.version = WEAVE_CONFIG_VERSION;
        }
        match cfg.execution.validate() {
            Err(reason) => {
                let mut m = chars_of(reason.as_str());
                extend_str(&mut m, ". Fix [execution] in .weave/config.toml — Weave fails closed (docs/adoption.md).");
                Err(Error::InvalidState { path: own(path), reason: string_of(&m) })
            },
            Ok(()) => {
                assert(warnings.deep_view() =~= if self.version == 0 {
                    seq!["config version missing/0 — treating as Weave config v1 (write-back recommended)"@]
                } else if self.version < WEAVE_CONFIG_VERSION {
                    seq!["config version "@ + decimal(self.version as nat)
                        + " is older than current (1); fields use defaults for missing keys"@]
                } else {
                    Seq::<Seq<char>>::empty()
                });
                Ok((cfg, warnings))
            },
        }
    }
}

} // verus!
