//! Allowlisted HTTPS prebuild fetch: planning, URL validation, redirect
//! handling and the policy gate in front of any download.
//!
//! Only explicitly configured package/URL/integrity tuples may be fetched,
//! only over HTTPS, only from allowlisted hosts (checked again at every
//! redirect), and only under `execution.profile = "prebuild-fetch"`.
use vstd::prelude::*;
use crate::artifact::{hash_bytes, hex_encode, hex_of, sha256, sha256_digest};
use crate::execution::ExecSealReport;
use crate::integrity::{b64_encode, digest_for, Integrity};
use crate::config::{fetches_named, parse_https_host, parse_https_host_spec, ExecutionConfig, PrebuildFetchSpec};
use crate::error::Error;
use crate::textmap::{lex_lt, lex_order};
use crate::prebuild::{debug_opt, debug_opt_str, HostPlatform};
use crate::text::{
    chars_of, debug_quoted, decimal, debug_str, extend_str, list_has, lower, opt_view, own, starts_with,
    str_eq, string_of, trim,
};

verus! {

/// Redirects followed at most while re-validating each hop's host.
pub const MAX_REDIRECTS: usize = 5;

/// `h` names an allowlisted host (ASCII case-insensitively).
pub open spec fn host_listed(hosts: Seq<Seq<char>>, h: Seq<char>) -> bool {
    exists|i: int| 0 <= i < hosts.len() && lower(#[trigger] hosts[i]) == lower(h)
}

fn host_listed_exec(hosts: &Vec<String>, h: &str) -> (r: bool)
    ensures
        r == host_listed(hosts.deep_view(), h@),
{
    let hl = crate::text::lower_chars(&chars_of(h));
    let mut i: usize = 0;
    while i < hosts.len()
        invariant
            i <= hosts@.len(),
            hl@ == lower(h@),
            forall|j: int| 0 <= j < i ==> lower(#[trigger] hosts.deep_view()[j]) != lower(h@),
        decreases hosts@.len() - i,
    {
        let l = crate::text::lower_chars(&chars_of(hosts[i].as_str()));
        assert(hosts.deep_view()[i as int] == hosts@[i as int]@);
        if crate::text::eq_chars(&l, &hl) {
            return true;
        }
        i += 1;
    }
    false
}

// ---------------------------------------------------------------------------
// Dry-run planning
// ---------------------------------------------------------------------------

/// Dry-run / planning view of one prebuild fetch (never contacts the network).
#[derive(Debug, PartialEq, Eq)]
pub struct PrebuildPlanEntry {
    /// Package name.
    pub package: String,
    /// Configured URL.
    pub url: String,
    /// Host extracted from URL.
    pub host: String,
    /// Whether host is on allow_hosts.
    pub host_allowed: bool,
    /// Configured SRI.
    pub integrity: String,
    /// Declared relative output path.
    pub output: String,
    /// Whether host OS matches the optional constraint.
    pub os_match: bool,
    /// Whether host CPU matches the optional constraint.
    pub cpu_match: bool,
    /// Whether Node ABI matches the optional constraint.
    pub abi_match: bool,
    /// Whether this fetch is selected for the current host.
    pub selected: bool,
    /// Whether performing it would require network (profile permitting).
    pub needs_network: bool,
    /// Human-readable status.
    pub reason: String,
}

/// A plan entry as plain values.
pub struct PlanModel {
    pub package: Seq<char>,
    pub url: Seq<char>,
    pub host: Seq<char>,
    pub host_allowed: bool,
    pub integrity: Seq<char>,
    pub output: Seq<char>,
    pub os_match: bool,
    pub cpu_match: bool,
    pub abi_match: bool,
    pub selected: bool,
    pub needs_network: bool,
    pub reason: Seq<char>,
}

impl View for PrebuildPlanEntry {
    type V = PlanModel;

    open spec fn view(&self) -> PlanModel {
        PlanModel {
            package: self.package@,
            url: self.url@,
            host: self.host@,
            host_allowed: self.host_allowed,
            integrity: self.integrity@,
            output: self.output@,
            os_match: self.os_match,
            cpu_match: self.cpu_match,
            abi_match: self.abi_match,
            selected: self.selected,
            needs_network: self.needs_network,
            reason: self.reason@,
        }
    }
}

/// An optional constraint is absent or equal to the host's value.
pub open spec fn constraint_ok(c: Option<Seq<char>>, have: Seq<char>) -> bool {
    match c {
        Some(v) => v == have,
        None => true,
    }
}

/// The plan of a fetch spec whose URL parsed to (`scheme`, `hostname`).
pub open spec fn plan_model(cfg: ExecutionConfig, spec: PrebuildFetchSpec, host: HostPlatform, abi: Seq<char>, scheme: Seq<char>, hostname: Seq<char>) -> PlanModel {
    let https = scheme == "https"@;
    let host_allowed = https && host_listed(cfg.prebuild.allow_hosts.deep_view(), hostname);
    let os_match = constraint_ok(opt_view(spec.os), host.os@);
    let cpu_match = constraint_ok(opt_view(spec.cpu), host.cpu@);
    let abi_match = constraint_ok(opt_view(spec.node_abi), abi);
    let selected = os_match && cpu_match && abi_match;
    let network = cfg.profile@ == "prebuild-fetch"@;
    PlanModel {
        package: spec.package@,
        url: spec.url@,
        host: hostname,
        host_allowed,
        integrity: spec.integrity@,
        output: spec.output@,
        os_match,
        cpu_match,
        abi_match,
        selected,
        needs_network: selected && network,
        reason: if !https {
            "rejected: non-HTTPS URL"@
        } else if !host_allowed {
            "host "@ + debug_quoted(hostname) + " not in allow_hosts"@
        } else if !os_match {
            "OS mismatch: need "@ + debug_opt(opt_view(spec.os)) + " have "@ + host.os@
        } else if !cpu_match {
            "CPU mismatch: need "@ + debug_opt(opt_view(spec.cpu)) + " have "@ + host.cpu@
        } else if !abi_match {
            "Node ABI mismatch: need "@ + debug_opt(opt_view(spec.node_abi)) + " have "@ + abi
        } else if !network {
            "selected but profile=offline (no network); dry-run only"@
        } else {
            "selected for allowlisted HTTPS prebuild fetch"@
        },
    }
}

/// The config file path reported with configuration errors.
pub open spec fn config_path() -> Seq<char> {
    ".weave/config.toml"@
}

fn constraint_matches(c: &Option<String>, have: &str) -> (r: bool)
    ensures
        r == constraint_ok(opt_view(*c), have@),
{
    match c {
        Some(v) => str_eq(v.as_str(), have),
        None => true,
    }
}

/// Plan one configured fetch for a host/ABI. Fails when the URL does not parse.
pub fn plan_one(cfg: &ExecutionConfig, spec: &PrebuildFetchSpec, host: &HostPlatform, abi: &str) -> (r: Result<PrebuildPlanEntry, Error>)
    ensures
        match parse_https_host_spec(spec.url@) {
            Err(e) => r matches Err(Error::InvalidState { path, reason }) && path@ == config_path()
                && reason@ == e,
            Ok(sh) => r matches Ok(p) && p@ == plan_model(*cfg, *spec, *host, abi@, sh.0, sh.1),
        },
{
    let (scheme, hostname) = match parse_https_host(spec.url.as_str()) {
        Ok(sh) => sh,
        Err(reason) => {
            return Err(Error::InvalidState { path: own(".weave/config.toml"), reason });
        },
    };
    let https = str_eq(scheme.as_str(), "https");
    let host_allowed = https && host_listed_exec(&cfg.prebuild.allow_hosts, hostname.as_str());
    let os_match = constraint_matches(&spec.os, host.os.as_str());
    let cpu_match = constraint_matches(&spec.cpu, host.cpu.as_str());
    let abi_match = constraint_matches(&spec.node_abi, abi);
    let selected = os_match && cpu_match && abi_match;
    let network = cfg.allows_prebuild_network();
    let reason = if !https {
        own("rejected: non-HTTPS URL")
    } else if !host_allowed {
        let mut m = chars_of("host ");
        extend_str(&mut m, debug_str(hostname.as_str()).as_str());
        extend_str(&mut m, " not in allow_hosts");
        string_of(&m)
    } else if !os_match {
        let mut m = chars_of("OS mismatch: need ");
        extend_str(&mut m, debug_opt_str(&spec.os).as_str());
        extend_str(&mut m, " have ");
        extend_str(&mut m, host.os.as_str());
        string_of(&m)
    } else if !cpu_match {
        let mut m = chars_of("CPU mismatch: need ");
        extend_str(&mut m, debug_opt_str(&spec.cpu).as_str());
        extend_str(&mut m, " have ");
        extend_str(&mut m, host.cpu.as_str());
        string_of(&m)
    } else if !abi_match {
        let mut m = chars_of("Node ABI mismatch: need ");
        extend_str(&mut m, debug_opt_str(&spec.node_abi).as_str());
        extend_str(&mut m, " have ");
        extend_str(&mut m, abi);
        string_of(&m)
    } else if !network {
        own("selected but profile=offline (no network); dry-run only")
    } else {
        own("selected for allowlisted HTTPS prebuild fetch")
    };
    Ok(
        PrebuildPlanEntry {
            package: own(spec.package.as_str()),
            url: own(spec.url.as_str()),
            host: hostname,
            host_allowed,
            integrity: own(spec.integrity.as_str()),
            output: own(spec.output.as_str()),
            os_match,
            cpu_match,
            abi_match,
            selected,
            needs_network: selected && network,
            reason,
        },
    )
}

/// Plans of the specs, or the first URL error.
pub open spec fn plans_of(cfg: ExecutionConfig, fs: Seq<PrebuildFetchSpec>, host: HostPlatform, abi: Seq<char>) -> Result<Seq<PlanModel>, Seq<char>>
    decreases fs.len(),
{
    if fs.len() == 0 {
        Ok(Seq::empty())
    } else {
        match plans_of(cfg, fs.drop_last(), host, abi) {
            Err(e) => Err(e),
            Ok(ps) => match parse_https_host_spec(fs.last().url@) {
                Err(e) => Err(e),
                Ok(sh) => Ok(ps.push(plan_model(cfg, fs.last(), host, abi, sh.0, sh.1))),
            },
        }
    }
}

/// Plans by their plain values.
pub open spec fn plan_views(s: Seq<PrebuildPlanEntry>) -> Seq<PlanModel> {
    s.map_values(|p: PrebuildPlanEntry| p@)
}

/// Dry-run plan of the fetches configured for `package` (no network).
pub fn plan_prebuild_for_package(cfg: &ExecutionConfig, package: &str, host: &HostPlatform, abi: &str) -> (r: Result<Vec<PrebuildPlanEntry>, Error>)
    ensures
        match plans_of(*cfg, fetches_named(cfg.prebuild.fetches@, package@), *host, abi@) {
            Ok(ps) => r matches Ok(v) && plan_views(v@) == ps,
            Err(e) => r matches Err(Error::InvalidState { path, reason }) && path@ == config_path()
                && reason@ == e,
        },
{
    let specs = cfg.prebuild_fetches_for(package);
    let ghost fs = fetches_named(cfg.prebuild.fetches@, package@);
    assert(specs@.map_values(|f: &PrebuildFetchSpec| *f) == fs);
    let mut out: Vec<PrebuildPlanEntry> = Vec::new();
    let mut i: usize = 0;
    assert(fs.take(0) =~= Seq::<PrebuildFetchSpec>::empty());
    assert(plan_views(out@) =~= Seq::<PlanModel>::empty());
    while i < specs.len()
        invariant
            i <= specs@.len(),
            fs == fetches_named(cfg.prebuild.fetches@, package@),
            specs@.len() == fs.len(),
            forall|j: int| 0 <= j < fs.len() ==> *specs@[j] == #[trigger] fs[j],
            plans_of(*cfg, fs.take(i as int), *host, abi@) == Ok::<Seq<PlanModel>, Seq<char>>(plan_views(out@)),
        decreases specs@.len() - i,
    {
        assert(fs.take(i + 1).drop_last() =~= fs.take(i as int));
        assert(fs.take(i + 1).last() == fs[i as int]);
        assert(*specs@[i as int] == fs[i as int]);
        match plan_one(cfg, specs[i], host, abi) {
            Ok(p) => {
                let ghost before = out@;
                out.push(p);
                assert(plan_views(out@) =~= plan_views(before).push(p@));
            },
            Err(e) => {
                proof {
                    match parse_https_host_spec(fs[i as int].url@) {
                        Err(pe) => {
                            assert(plans_of(*cfg, fs.take(i + 1), *host, abi@) == Err::<Seq<PlanModel>, Seq<char>>(pe));
                            lemma_plans_err_extends(*cfg, fs, i + 1, *host, abi@);
                        },
                        Ok(_) => {},
                    }
                    assert(fs == fetches_named(cfg.prebuild.fetches@, package@));
                    assert(plans_of(*cfg, fs, *host, abi@).is_err());
                }
                return Err(e);
            },
        }
        i += 1;
    }
    assert(fs.take(fs.len() as int) =~= fs);
    Ok(out)
}

/// Plan order: package, then URL.
pub open spec fn plan_lt(a: PlanModel, b: PlanModel) -> bool {
    lex_lt(a.package, b.package) || (a.package == b.package && lex_lt(a.url, b.url))
}

/// `x` placed before the first element ordered after it.
pub open spec fn insert_plan(s: Seq<PlanModel>, x: PlanModel) -> Seq<PlanModel>
    decreases s.len(),
{
    if s.len() == 0 {
        seq![x]
    } else if plan_lt(x, s[0]) {
        seq![x] + s
    } else {
        seq![s[0]] + insert_plan(s.skip(1), x)
    }
}

/// `s` in plan order, equal elements in their original order.
pub open spec fn sort_plans(s: Seq<PlanModel>) -> Seq<PlanModel>
    decreases s.len(),
{
    if s.len() == 0 {
        Seq::empty()
    } else {
        insert_plan(sort_plans(s.drop_last()), s.last())
    }
}

/// Inserting at the first position ordered after `x` is `insert_plan`.
proof fn lemma_insert_plan_at(s: Seq<PlanModel>, x: PlanModel, p: int)
    requires
        0 <= p <= s.len(),
        forall|q: int| 0 <= q < p ==> !plan_lt(x, #[trigger] s[q]),
        p == s.len() || plan_lt(x, s[p]),
    ensures
        insert_plan(s, x) == s.insert(p, x),
    decreases p,
{
    if p == 0 {
        assert(s.insert(0, x) =~= seq![x] + s);
        if s.len() == 0 {
            assert(seq![x] + s =~= seq![x]);
        }
    } else {
        assert(!plan_lt(x, s[0]));
        lemma_insert_plan_at(s.skip(1), x, p - 1);
        assert(seq![s[0]] + s.skip(1).insert(p - 1, x) =~= s.insert(p, x));
    }
}

fn plan_before(a: &PrebuildPlanEntry, b: &PrebuildPlanEntry) -> (r: bool)
    ensures
        r == plan_lt(a@, b@),
{
    let c = lex_order(&chars_of(a.package.as_str()), &chars_of(b.package.as_str()));
    if c != 0 {
        return c < 0;
    }
    lex_order(&chars_of(a.url.as_str()), &chars_of(b.url.as_str())) < 0
}

fn sort_plan_entries(v: Vec<PrebuildPlanEntry>) -> (r: Vec<PrebuildPlanEntry>)
    ensures
        plan_views(r@) == sort_plans(plan_views(v@)),
{
    let ghost orig = plan_views(v@);
    let mut src = v;
    let total = src.len();
    let mut out: Vec<PrebuildPlanEntry> = Vec::new();
    let mut k: usize = 0;
    assert(plan_views(src@) =~= orig.skip(0));
    assert(plan_views(out@) =~= sort_plans(orig.take(0)));
    while src.len() > 0
        invariant
            k <= orig.len(),
            orig.len() == total,
            plan_views(src@) == orig.skip(k as int),
            plan_views(out@) == sort_plans(orig.take(k as int)),
        decreases src@.len(),
    {
        let ghost sv = src@;
        assert(plan_views(sv).len() == sv.len());
        let x = src.remove(0);
        proof {
            sv.remove_ensures(0);
            assert(x@ == plan_views(sv)[0]);
            assert(plan_views(sv)[0] == orig.skip(k as int)[0]);
            assert forall|q: int| 0 <= q < src@.len() implies #[trigger] plan_views(src@)[q]
                == orig.skip(k + 1)[q] by {
                assert(src@[q] == sv[q + 1]);
                assert(plan_views(sv)[q + 1] == orig.skip(k as int)[q + 1]);
            }
            assert(plan_views(src@) =~= orig.skip(k + 1));
        }
        let ghost ov = plan_views(out@);
        let mut j: usize = 0;
        while j < out.len() && !plan_before(&x, &out[j])
            invariant
                j <= out@.len(),
                ov == plan_views(out@),
                forall|q: int| 0 <= q < j ==> !plan_lt(x@, #[trigger] ov[q]),
            decreases out@.len() - j,
        {
            assert(ov[j as int] == out@[j as int]@);
            j += 1;
        }
        if j < out.len() {
            assert(ov[j as int] == out@[j as int]@);
        }
        proof {
            lemma_insert_plan_at(ov, x@, j as int);
            assert(orig.take(k + 1).drop_last() =~= orig.take(k as int));
            assert(orig.take(k + 1).last() == x@);
        }
        let ghost oo = out@;
        out.insert(j, x);
        proof {
            oo.insert_ensures(j as int, x);
            ov.insert_ensures(j as int, x@);
            assert(plan_views(out@) =~= ov.insert(j as int, x@));
        }
        k += 1;
    }
    assert(orig.take(k as int) =~= orig);
    out
}

/// Dry-run plan of every configured fetch on `host` with Node ABI `abi`,
/// ordered by package then URL. Never contacts the network.
pub fn plan_all_prebuilds(cfg: &ExecutionConfig, host: &HostPlatform, abi: &str) -> (r: Result<Vec<PrebuildPlanEntry>, Error>)
    ensures
        match plans_of(*cfg, cfg.prebuild.fetches@, *host, abi@) {
            Ok(ps) => r matches Ok(v) && plan_views(v@) == sort_plans(ps),
            Err(e) => r matches Err(Error::InvalidState { path, reason }) && path@ == config_path()
                && reason@ == e,
        },
{
    let fs = &cfg.prebuild.fetches;
    let mut out: Vec<PrebuildPlanEntry> = Vec::new();
    let mut i: usize = 0;
    assert(fs@.take(0) =~= Seq::<PrebuildFetchSpec>::empty());
    assert(plan_views(out@) =~= Seq::<PlanModel>::empty());
    while i < fs.len()
        invariant
            i <= fs@.len(),
            fs == &cfg.prebuild.fetches,
            plans_of(*cfg, fs@.take(i as int), *host, abi@) == Ok::<Seq<PlanModel>, Seq<char>>(plan_views(out@)),
        decreases fs@.len() - i,
    {
        assert(fs@.take(i + 1).drop_last() =~= fs@.take(i as int));
        assert(fs@.take(i + 1).last() == fs@[i as int]);
        match plan_one(cfg, &fs[i], host, abi) {
            Ok(p) => {
                let ghost before = out@;
                out.push(p);
                assert(plan_views(out@) =~= plan_views(before).push(p@));
            },
            Err(e) => {
                proof {
                    match parse_https_host_spec(fs@[i as int].url@) {
                        Err(pe) => {
                            assert(plans_of(*cfg, fs@.take(i + 1), *host, abi@) == Err::<Seq<PlanModel>, Seq<char>>(pe));
                            lemma_plans_err_extends(*cfg, fs@, i + 1, *host, abi@);
                        },
                        Ok(_) => {},
                    }
                }
                return Err(e);
            },
        }
        i += 1;
    }
    assert(fs@.take(fs@.len() as int) =~= fs@);
    Ok(sort_plan_entries(out))
}

/// Once planning a prefix fails, planning the whole list fails the same way.
pub proof fn lemma_plans_err_extends(cfg: ExecutionConfig, fs: Seq<PrebuildFetchSpec>, n: int, host: HostPlatform, abi: Seq<char>)
    requires
        0 <= n <= fs.len(),
        plans_of(cfg, fs.take(n), host, abi).is_err(),
    ensures
        plans_of(cfg, fs, host, abi) == plans_of(cfg, fs.take(n), host, abi),
    decreases fs.len() - n,
{
    if n == fs.len() {
        assert(fs.take(n) =~= fs);
    } else {
        assert(fs.take(n + 1).drop_last() =~= fs.take(n));
        lemma_plans_err_extends(cfg, fs, n + 1, host, abi);
    }
}

/// The specs whose plans are selected, in order.
pub open spec fn selected_specs(fs: Seq<PrebuildFetchSpec>, ps: Seq<PlanModel>) -> Seq<PrebuildFetchSpec>
    decreases fs.len(),
{
    if fs.len() == 0 || ps.len() != fs.len() {
        Seq::empty()
    } else if ps.last().selected {
        selected_specs(fs.drop_last(), ps.drop_last()).push(fs.last())
    } else {
        selected_specs(fs.drop_last(), ps.drop_last())
    }
}

/// The reason given when several fetches match the host.
pub open spec fn ambiguous_reason(package: Seq<char>) -> Seq<char> {
    "multiple prebuild fetches match package "@ + debug_quoted(package)
        + " for this platform/ABI; narrow os/cpu/node_abi constraints"@
}

/// The single configured fetch for `package` selected for this host/ABI, if any.
pub fn select_prebuild_spec<'a>(cfg: &'a ExecutionConfig, package: &str, host: &HostPlatform, abi: &str) -> (r: Result<Option<&'a PrebuildFetchSpec>, Error>)
    ensures
        match plans_of(*cfg, fetches_named(cfg.prebuild.fetches@, package@), *host, abi@) {
            Err(e) => r matches Err(Error::InvalidState { path, reason }) && path@ == config_path()
                && reason@ == e,
            Ok(ps) => {
                let sel = selected_specs(fetches_named(cfg.prebuild.fetches@, package@), ps);
                if sel.len() == 0 {
                    r matches Ok(None)
                } else if sel.len() == 1 {
                    r matches Ok(Some(s)) && *s == sel[0]
                } else {
                    r matches Err(Error::InvalidState { path, reason }) && path@ == config_path()
                        && reason@ == ambiguous_reason(package@)
                }
            },
        },
{
    let specs = cfg.prebuild_fetches_for(package);
    let ghost fs = fetches_named(cfg.prebuild.fetches@, package@);
    assert(specs@.map_values(|f: &PrebuildFetchSpec| *f) == fs);
    let mut matches: Vec<&PrebuildFetchSpec> = Vec::new();
    let mut out: Vec<PrebuildPlanEntry> = Vec::new();
    let mut i: usize = 0;
    assert(fs.take(0) =~= Seq::<PrebuildFetchSpec>::empty());
    assert(plan_views(out@) =~= Seq::<PlanModel>::empty());
    assert(matches@.map_values(|f: &PrebuildFetchSpec| *f) =~= selected_specs(fs.take(0), plan_views(out@)));
    while i < specs.len()
        invariant
            i <= specs@.len(),
            fs == fetches_named(cfg.prebuild.fetches@, package@),
            specs@.len() == fs.len(),
            forall|j: int| 0 <= j < fs.len() ==> *specs@[j] == #[trigger] fs[j],
            plans_of(*cfg, fs.take(i as int), *host, abi@) == Ok::<Seq<PlanModel>, Seq<char>>(plan_views(out@)),
            plan_views(out@).len() == i,
            matches@.map_values(|f: &PrebuildFetchSpec| *f) == selected_specs(fs.take(i as int), plan_views(out@)),
        decreases specs@.len() - i,
    {
        assert(fs.take(i + 1).drop_last() =~= fs.take(i as int));
        assert(fs.take(i + 1).last() == fs[i as int]);
        match plan_one(cfg, specs[i], host, abi) {
            Ok(p) => {
                let ghost before = out@;
                let ghost mb = matches@;
                let sel = p.selected;
                out.push(p);
                assert(plan_views(out@) =~= plan_views(before).push(out@.last()@));
                assert(plan_views(out@).drop_last() =~= plan_views(before));
                if sel {
                    matches.push(specs[i]);
                    assert(matches@.map_values(|f: &PrebuildFetchSpec| *f) =~= mb.map_values(|f: &PrebuildFetchSpec| *f).push(fs[i as int]));
                }
            },
            Err(e) => {
                proof {
                    match parse_https_host_spec(fs[i as int].url@) {
                        Err(pe) => {
                            assert(plans_of(*cfg, fs.take(i + 1), *host, abi@) == Err::<Seq<PlanModel>, Seq<char>>(pe));
                            lemma_plans_err_extends(*cfg, fs, i + 1, *host, abi@);
                        },
                        Ok(_) => {},
                    }
                }
                return Err(e);
            },
        }
        i += 1;
    }
    assert(fs.take(fs.len() as int) =~= fs);
    if matches.len() == 0 {
        Ok(None)
    } else if matches.len() == 1 {
        assert(matches@.map_values(|f: &PrebuildFetchSpec| *f)[0] == *matches@[0]);
        Ok(Some(matches[0]))
    } else {
        let mut m = chars_of("multiple prebuild fetches match package ");
        extend_str(&mut m, debug_str(package).as_str());
        extend_str(&mut m, " for this platform/ABI; narrow os/cpu/node_abi constraints");
        Err(Error::InvalidState { path: own(".weave/config.toml"), reason: string_of(&m) })
    }
}

// ---------------------------------------------------------------------------
// URL validation and redirects
// ---------------------------------------------------------------------------

/// Why `url` may not be fetched with these allowed hosts, if it may not.
pub open spec fn fetch_url_problem(url: Seq<char>, hosts: Seq<Seq<char>>) -> Option<Seq<char>> {
    match parse_https_host_spec(url) {
        Err(e) => Some(e),
        Ok(sh) => if sh.0 != "https"@ {
            Some("only https URLs are allowed for prebuild fetch"@)
        } else if !host_listed(hosts, sh.1) {
            Some("host "@ + debug_quoted(sh.1) + " is not in execution.prebuild.allow_hosts"@)
        } else {
            None
        },
    }
}

/// Validate a URL for allowlisted HTTPS fetch.
pub fn validate_fetch_url(url: &str, allow_hosts: &Vec<String>) -> (r: Result<(), Error>)
    ensures
        match fetch_url_problem(url@, allow_hosts.deep_view()) {
            None => r is Ok,
            Some(p) => r matches Err(Error::InvalidState { path, reason }) && path@ == url@
                && reason@ == p,
        },
{
    let (scheme, host) = match parse_https_host(url) {
        Ok(sh) => sh,
        Err(reason) => {
            return Err(Error::InvalidState { path: own(url), reason });
        },
    };
    if !str_eq(scheme.as_str(), "https") {
        return Err(
            Error::InvalidState {
                path: own(url),
                reason: own("only https URLs are allowed for prebuild fetch"),
            },
        );
    }
    if !host_listed_exec(allow_hosts, host.as_str()) {
        let mut m = chars_of("host ");
        extend_str(&mut m, debug_str(host.as_str()).as_str());
        extend_str(&mut m, " is not in execution.prebuild.allow_hosts");
        return Err(Error::InvalidState { path: own(url), reason: string_of(&m) });
    }
    Ok(())
}

/// Where a redirect `location` from `base` leads, if it can be resolved:
/// absolute HTTP(S) locations as given, root-relative ones on the base's
/// scheme and host.
pub open spec fn redirect_target(base: Seq<char>, location: Seq<char>) -> Option<Seq<char>> {
    let l = trim(location);
    if starts_with(l, "https://"@) || starts_with(l, "http://"@) {
        Some(l)
    } else {
        match parse_https_host_spec(base) {
            Ok(sh) => if starts_with(l, "/"@) {
                Some(sh.0 + "://"@ + sh.1 + l)
            } else {
                None
            },
            Err(_) => None,
        }
    }
}

/// The error for a redirect `location` from `base` that cannot be resolved:
/// an unparsable base, or a location that is neither absolute nor root-relative.
pub open spec fn redirect_failure(base: Seq<char>, location: Seq<char>, e: Error) -> bool {
    let l = trim(location);
    match parse_https_host_spec(base) {
        Err(m) => e matches Error::InvalidState { path, reason } && path@ == base && reason@ == m,
        Ok(_) => e matches Error::FetchFailed { url, reason } && url@ == base && reason@
            == "unsupported relative redirect "@ + debug_quoted(l),
    }
}

/// Where a redirect `location` from `base` leads: absolute HTTP(S) locations
/// as given, root-relative ones on the base's scheme and host.
pub fn resolve_redirect(base: &str, location: &str) -> (r: Result<String, Error>)
    ensures
        match redirect_target(base@, location@) {
            Some(u) => r matches Ok(v) && v@ == u,
            None => r matches Err(e) && redirect_failure(base@, location@, e),
        },
{
    let lc = crate::text::trim_chars(&chars_of(location));
    let loc = string_of(&lc);
    if crate::text::str_starts_with(loc.as_str(), "https://") || crate::text::str_starts_with(
        loc.as_str(),
        "http://",
    ) {
        return Ok(loc);
    }
    let (scheme, host) = match parse_https_host(base) {
        Ok(sh) => sh,
        Err(reason) => {
            return Err(Error::InvalidState { path: own(base), reason });
        },
    };
    if crate::text::str_starts_with(loc.as_str(), "/") {
        let mut u = chars_of(scheme.as_str());
        extend_str(&mut u, "://");
        extend_str(&mut u, host.as_str());
        extend_str(&mut u, loc.as_str());
        return Ok(string_of(&u));
    }
    let mut m = chars_of("unsupported relative redirect ");
    extend_str(&mut m, debug_str(loc.as_str()).as_str());
    Err(Error::FetchFailed { url: own(base), reason: string_of(&m) })
}

/// Minimal HTTP response used by the prebuild fetcher.
#[derive(Debug)]
pub struct PrebuildHttpResponse {
    /// Status code.
    pub status: u16,
    /// Optional Location header (redirects).
    pub location: Option<String>,
    /// Response body (empty for redirects).
    pub body: Vec<u8>,
}

/// A response as plain values.
pub struct ResponseModel {
    pub status: u16,
    pub location: Option<Seq<char>>,
    pub body: Seq<u8>,
}

impl View for PrebuildHttpResponse {
    type V = ResponseModel;

    open spec fn view(&self) -> ResponseModel {
        ResponseModel { status: self.status, location: opt_view(self.location), body: self.body@ }
    }
}

impl PrebuildHttpResponse {
    /// A copy of this response.
    pub fn duplicate(&self) -> (r: PrebuildHttpResponse)
        ensures
            r@ == self@,
    {
        let mut body: Vec<u8> = Vec::new();
        let mut i: usize = 0;
        while i < self.body.len()
            invariant
                i <= self.body@.len(),
                body@ == self.body@.take(i as int),
            decreases self.body@.len() - i,
        {
            body.push(self.body[i]);
            i += 1;
            assert(body@ =~= self.body@.take(i as int));
        }
        assert(self.body@.take(self.body@.len() as int) =~= self.body@);
        PrebuildHttpResponse { status: self.status, location: crate::text::copy_opt(&self.location), body }
    }
}

/// One HTTPS GET that does not follow redirects: the network access itself.
/// Implement it for a client and hand the fetcher a `RecordingTransport` of
/// it.
pub trait PrebuildHttp {
    /// Perform one GET of `url` without following redirects.
    fn get(&mut self, url: &str) -> Result<PrebuildHttpResponse, Error>;
}

/// One HTTPS GET that does not follow redirects, with a record of every URL
/// requested; the fetcher decides which requests are made.
pub trait PrebuildTransport {
    /// The URLs requested so far, in order.
    spec fn requested(&self) -> Seq<Seq<char>>;

    /// Perform one GET of `url` without following redirects; the request is
    /// recorded whatever the outcome.
    fn get_no_redirect(&mut self, url: &str) -> (r: Result<PrebuildHttpResponse, Error>)
        ensures
            final(self).requested() == old(self).requested().push(url@),
    ;
}

/// A transport over an HTTP client that records each URL it hands to the
/// client.
#[derive(Debug)]
pub struct RecordingTransport<C> {
    /// The client that performs the requests.
    pub client: C,
    urls: Vec<String>,
}

impl<C: PrebuildHttp> RecordingTransport<C> {
    /// A transport over `client` that has requested nothing yet.
    pub fn new(client: C) -> (r: RecordingTransport<C>)
        ensures
            r.requested() == Seq::<Seq<char>>::empty(),
    {
        let r = RecordingTransport { client, urls: Vec::new() };
        assert(r.urls.deep_view() =~= Seq::<Seq<char>>::empty());
        r
    }

    /// The URLs requested so far, in order.
    pub fn requested_urls(&self) -> (r: &Vec<String>)
        ensures
            r.deep_view() == self.requested(),
    {
        &self.urls
    }
}

impl<C: PrebuildHttp> PrebuildTransport for RecordingTransport<C> {
    closed spec fn requested(&self) -> Seq<Seq<char>> {
        self.urls.deep_view()
    }

    fn get_no_redirect(&mut self, url: &str) -> (r: Result<PrebuildHttpResponse, Error>) {
        let ghost before = self.urls.deep_view();
        self.urls.push(own(url));
        assert(self.urls.deep_view() =~= before.push(url@));
        self.client.get(url)
    }
}

/// What the fetcher does after one response.
pub enum FetchStep {
    /// Request this (validated) URL next.
    Follow(String),
    /// The fetch is done with this body.
    Done(Vec<u8>),
}

/// What one response from `current` leads to: a redirect (3xx) with a
/// Location that resolves to an allowlisted HTTPS URL is followed; a 200
/// response ends the fetch with its body; anything else fails.
pub fn redirect_step(current: &str, resp: PrebuildHttpResponse, allow_hosts: &Vec<String>) -> (r: Result<FetchStep, Error>)
    ensures
        ({
            let s = resp.status;
            if 300 <= s < 400 {
                match resp.location {
                    None => r matches Err(Error::FetchFailed { url, reason }) && url@ == current@
                        && reason@ == "redirect "@ + decimal(s as nat) + " without Location"@,
                    Some(l) => match redirect_target(current@, l@) {
                        None => r matches Err(e) && redirect_failure(current@, l@, e),
                        Some(next) => match fetch_url_problem(next, allow_hosts.deep_view()) {
                            Some(p) => r matches Err(Error::FetchFailed { url, reason }) && url@ == next
                                && reason@ == "redirect to denied host/url: "@ + p,
                            None => r matches Ok(FetchStep::Follow(u)) && u@ == next,
                        },
                    },
                }
            } else if s != 200 {
                r matches Err(Error::FetchFailed { url, reason }) && url@ == current@ && reason@
                    == "unexpected HTTP status "@ + decimal(s as nat)
            } else {
                r matches Ok(FetchStep::Done(b)) && b@ == resp.body@
            }
        }),
{
    if 300 <= resp.status && resp.status < 400 {
        let loc = match resp.location {
            Some(l) => l,
            None => {
                let mut m = chars_of("redirect ");
                extend_str(&mut m, crate::text::decimal_string(resp.status as u64).as_str());
                extend_str(&mut m, " without Location");
                return Err(Error::FetchFailed { url: own(current), reason: string_of(&m) });
            },
        };
        let next = match resolve_redirect(current, loc.as_str()) {
            Ok(n) => n,
            Err(e) => {
                return Err(e);
            },
        };
        match validate_fetch_url(next.as_str(), allow_hosts) {
            Ok(()) => {},
            Err(err) => {
                let mut m = chars_of("redirect to denied host/url: ");
                extend_str(&mut m, err.reason().as_str());
                return Err(Error::FetchFailed { url: next, reason: string_of(&m) });
            },
        }
        return Ok(FetchStep::Follow(next));
    }
    if resp.status != 200 {
        let mut m = chars_of("unexpected HTTP status ");
        extend_str(&mut m, crate::text::decimal_string(resp.status as u64).as_str());
        return Err(Error::FetchFailed { url: own(current), reason: string_of(&m) });
    }
    Ok(FetchStep::Done(resp.body))
}

/// The fetcher's one call of the transport: only ever with a URL that is
/// HTTPS and on the allowlist.
fn request<T: PrebuildTransport>(transport: &mut T, url: &str, allow_hosts: &Vec<String>) -> (r: Result<PrebuildHttpResponse, Error>)
    requires
        fetch_url_problem(url@, allow_hosts.deep_view()).is_none(),
    ensures
        final(transport).requested() == old(transport).requested().push(url@),
{
    transport.get_no_redirect(url)
}

/// The URL a response from `current` redirects to, when the fetcher follows
/// it: a 3xx with a Location that resolves to an allowlisted HTTPS URL.
pub open spec fn follow(current: Seq<char>, r: ResponseModel, hosts: Seq<Seq<char>>) -> Option<Seq<char>> {
    if 300 <= r.status < 400 {
        match r.location {
            Some(l) => match redirect_target(current, l) {
                Some(next) => if fetch_url_problem(next, hosts).is_none() {
                    Some(next)
                } else {
                    None
                },
                None => None,
            },
            None => None,
        }
    } else {
        None
    }
}

/// `rs` is a complete run of a fetch from `current` with at most `budget`
/// requests: one answer per request (`None` where the transport failed),
/// no request for a URL that fails the check, a redirect followed while
/// requests remain, and nothing after an answer that is not followed.
pub open spec fn fetch_run(current: Seq<char>, hosts: Seq<Seq<char>>, rs: Seq<Option<ResponseModel>>, budget: nat) -> bool
    decreases rs.len(),
{
    if budget == 0 || fetch_url_problem(current, hosts).is_some() {
        rs.len() == 0
    } else if rs.len() == 0 {
        false
    } else {
        match rs[0] {
            None => rs.len() == 1,
            Some(r) => match follow(current, r, hosts) {
                Some(next) => fetch_run(next, hosts, rs.skip(1), (budget - 1) as nat),
                None => rs.len() == 1,
            },
        }
    }
}

/// The URLs a fetch from `current` requests when it gets the answers `rs`.
pub open spec fn fetch_requests(current: Seq<char>, hosts: Seq<Seq<char>>, rs: Seq<Option<ResponseModel>>) -> Seq<Seq<char>>
    decreases rs.len(),
{
    if rs.len() == 0 {
        Seq::empty()
    } else {
        seq![current] + match rs[0] {
            Some(r) => match follow(current, r, hosts) {
                Some(next) => fetch_requests(next, hosts, rs.skip(1)),
                None => Seq::empty(),
            },
            None => Seq::empty(),
        }
    }
}

/// What a fetch from `current` gives when it gets the answers `rs`: the body
/// and URL of a final 200 answer.
pub open spec fn fetch_end(current: Seq<char>, hosts: Seq<Seq<char>>, rs: Seq<Option<ResponseModel>>) -> Option<(Seq<u8>, Seq<char>)>
    decreases rs.len(),
{
    if rs.len() == 0 {
        None
    } else {
        match rs[0] {
            Some(r) => match follow(current, r, hosts) {
                Some(next) => fetch_end(next, hosts, rs.skip(1)),
                None => if r.status == 200 {
                    Some((r.body, current))
                } else {
                    None
                },
            },
            None => None,
        }
    }
}

/// In a complete run every URL requested passes the fetch check, there is
/// one request per answer, and at most `budget` of them; a URL that fails
/// the check is never requested.
pub proof fn lemma_fetch_run_requests(current: Seq<char>, hosts: Seq<Seq<char>>, rs: Seq<Option<ResponseModel>>, budget: nat)
    requires
        fetch_run(current, hosts, rs, budget),
    ensures
        fetch_requests(current, hosts, rs).len() == rs.len(),
        rs.len() <= budget,
        forall|i: int|
            0 <= i < rs.len() ==> fetch_url_problem(#[trigger] fetch_requests(current, hosts, rs)[i], hosts).is_none(),
        fetch_url_problem(current, hosts).is_some() ==> rs.len() == 0,
    decreases rs.len(),
{
    if budget == 0 || fetch_url_problem(current, hosts).is_some() || rs.len() == 0 {
    } else {
        match rs[0] {
            None => {},
            Some(r) => match follow(current, r, hosts) {
                Some(next) => {
                    lemma_fetch_run_requests(next, hosts, rs.skip(1), (budget - 1) as nat);
                    let tail = fetch_requests(next, hosts, rs.skip(1));
                    assert(fetch_requests(current, hosts, rs) == seq![current] + tail);
                    assert forall|i: int| 0 <= i < rs.len() implies fetch_url_problem(
                        #[trigger] fetch_requests(current, hosts, rs)[i],
                        hosts,
                    ).is_none() by {
                        if i > 0 {
                            assert(fetch_requests(current, hosts, rs)[i] == tail[i - 1]);
                        }
                    }
                },
                None => {},
            },
        }
    }
}

/// Fetch `url` over HTTPS, following redirects only to allowlisted hosts,
/// with at most `MAX_REDIRECTS + 1` requests. Returns the body of the final
/// 200 response and the final URL. The requests made are exactly those of a
/// complete run for the answers the transport gave: the first for `url`,
/// each later one for the checked target of the previous redirect; a URL
/// that fails the check is refused before any request.
pub fn https_fetch_allowlisted<T: PrebuildTransport>(transport: &mut T, url: &str, allow_hosts: &Vec<String>) -> (r: Result<(Vec<u8>, String), Error>)
    ensures
        match fetch_url_problem(url@, allow_hosts.deep_view()) {
            Some(p) => r matches Err(Error::InvalidState { path, reason }) && path@ == url@
                && reason@ == p && final(transport).requested() == old(transport).requested(),
            None => final(transport).requested().len() > old(transport).requested().len(),
        },
        exists|rs: Seq<Option<ResponseModel>>|
            #[trigger] fetch_run(url@, allow_hosts.deep_view(), rs, (MAX_REDIRECTS + 1) as nat)
                && final(transport).requested() == old(transport).requested() + fetch_requests(
                url@,
                allow_hosts.deep_view(),
                rs,
            ) && match r {
                Ok(res) => fetch_end(url@, allow_hosts.deep_view(), rs) == Some((res.0@, res.1@)),
                Err(_) => fetch_end(url@, allow_hosts.deep_view(), rs).is_none(),
            },
        forall|i: int|
            old(transport).requested().len() <= i < final(transport).requested().len() ==> fetch_url_problem(
                #[trigger] final(transport).requested()[i],
                allow_hosts.deep_view(),
            ).is_none(),
        final(transport).requested().len() <= old(transport).requested().len() + MAX_REDIRECTS + 1,
        r matches Ok(res) ==> fetch_url_problem(res.1@, allow_hosts.deep_view()).is_none(),
{
    let ghost hosts = allow_hosts.deep_view();
    let ghost before = transport.requested();
    let r = fetch_loop(transport, url, allow_hosts);
    proof {
        let rs = choose|rs: Seq<Option<ResponseModel>>|
            #[trigger] fetch_run(url@, hosts, rs, (MAX_REDIRECTS + 1) as nat) && transport.requested() == before
                + fetch_requests(url@, hosts, rs) && match r {
                Ok(res) => fetch_end(url@, hosts, rs) == Some((res.0@, res.1@)),
                Err(_) => fetch_end(url@, hosts, rs).is_none(),
            };
        lemma_fetch_run_requests(url@, hosts, rs, (MAX_REDIRECTS + 1) as nat);
        let reqs = fetch_requests(url@, hosts, rs);
        assert forall|i: int| before.len() <= i < transport.requested().len() implies fetch_url_problem(
            #[trigger] transport.requested()[i],
            hosts,
        ).is_none() by {
            assert(transport.requested()[i] == reqs[i - before.len()]);
        }
        if fetch_url_problem(url@, hosts).is_none() {
            assert(rs.len() > 0);
        } else {
            assert(reqs =~= Seq::<Seq<char>>::empty());
            assert(transport.requested() =~= before);
        }
        if r is Ok {
            lemma_fetch_end_checked(url@, hosts, rs, (MAX_REDIRECTS + 1) as nat);
        }
    }
    r
}

/// The URL a complete run ends at with a body passes the fetch check.
pub proof fn lemma_fetch_end_checked(current: Seq<char>, hosts: Seq<Seq<char>>, rs: Seq<Option<ResponseModel>>, budget: nat)
    requires
        fetch_run(current, hosts, rs, budget),
        fetch_end(current, hosts, rs) is Some,
    ensures
        fetch_url_problem(fetch_end(current, hosts, rs)->Some_0.1, hosts).is_none(),
    decreases rs.len(),
{
    if budget == 0 || fetch_url_problem(current, hosts).is_some() || rs.len() == 0 {
    } else {
        match rs[0] {
            None => {},
            Some(r) => match follow(current, r, hosts) {
                Some(next) => {
                    lemma_fetch_run_requests(next, hosts, rs.skip(1), (budget - 1) as nat);
                    lemma_fetch_end_checked(next, hosts, rs.skip(1), (budget - 1) as nat);
                },
                None => {},
            },
        }
    }
}

fn fetch_loop<T: PrebuildTransport>(transport: &mut T, url: &str, allow_hosts: &Vec<String>) -> (r: Result<(Vec<u8>, String), Error>)
    ensures
        fetch_url_problem(url@, allow_hosts.deep_view()) matches Some(p) ==> (r matches Err(
            Error::InvalidState { path, reason },
        ) && path@ == url@ && reason@ == p),
        exists|rs: Seq<Option<ResponseModel>>|
            #[trigger] fetch_run(url@, allow_hosts.deep_view(), rs, (MAX_REDIRECTS + 1) as nat)
                && final(transport).requested() == old(transport).requested() + fetch_requests(
                url@,
                allow_hosts.deep_view(),
                rs,
            ) && match r {
                Ok(res) => fetch_end(url@, allow_hosts.deep_view(), rs) == Some((res.0@, res.1@)),
                Err(_) => fetch_end(url@, allow_hosts.deep_view(), rs).is_none(),
            },
{
    let ghost hosts = allow_hosts.deep_view();
    let ghost start = transport.requested();
    let ghost mut done: Seq<Option<ResponseModel>> = Seq::empty();
    let ghost mut reqs: Seq<Seq<char>> = Seq::empty();
    let mut current = own(url);
    let mut attempt: usize = 0;
    proof {
        assert forall|t: Seq<Option<ResponseModel>>| #![auto]
            fetch_run(url@, hosts, done + t, (MAX_REDIRECTS + 1) as nat) == fetch_run(current@, hosts, t, (MAX_REDIRECTS + 1) as nat)
            && fetch_requests(url@, hosts, done + t) == reqs + fetch_requests(current@, hosts, t)
            && fetch_end(url@, hosts, done + t) == fetch_end(current@, hosts, t) by {
            assert(done + t =~= t);
            assert(reqs + fetch_requests(current@, hosts, t) =~= fetch_requests(current@, hosts, t));
        }
    }
    while attempt <= MAX_REDIRECTS
        invariant
            hosts == allow_hosts.deep_view(),
            done.len() == attempt,
            attempt <= MAX_REDIRECTS + 1,
            attempt == 0 ==> current@ == url@,
            attempt > 0 ==> fetch_url_problem(current@, hosts).is_none(),
            attempt > 0 ==> fetch_url_problem(url@, hosts).is_none(),
            transport.requested() == start + reqs,
            start == old(transport).requested(),
            forall|t: Seq<Option<ResponseModel>>| #![auto]
                fetch_run(url@, hosts, done + t, (MAX_REDIRECTS + 1) as nat) == fetch_run(
                    current@,
                    hosts,
                    t,
                    (MAX_REDIRECTS + 1 - attempt) as nat,
                ) && fetch_requests(url@, hosts, done + t) == reqs + fetch_requests(current@, hosts, t)
                    && fetch_end(url@, hosts, done + t) == fetch_end(current@, hosts, t),
        decreases MAX_REDIRECTS + 1 - attempt,
    {
        let ghost budget = (MAX_REDIRECTS + 1 - attempt) as nat;
        match validate_fetch_url(current.as_str(), allow_hosts) {
            Ok(()) => {},
            Err(e) => {
                proof {
                    let t = Seq::<Option<ResponseModel>>::empty();
                    assert(fetch_run(url@, hosts, done + t, (MAX_REDIRECTS + 1) as nat) == fetch_run(current@, hosts, t, budget));
                    assert(fetch_requests(url@, hosts, done + t) == reqs + fetch_requests(current@, hosts, t));
                    assert(fetch_end(url@, hosts, done + t) == fetch_end(current@, hosts, t));
                    assert(reqs + fetch_requests(current@, hosts, t) =~= reqs);
                    assert(fetch_run(url@, hosts, done + t, (MAX_REDIRECTS + 1) as nat));
                    assert(transport.requested() == start + fetch_requests(url@, hosts, done + t));
                }
                return Err(e);
            },
        }
        let resp = match request(transport, current.as_str(), allow_hosts) {
            Ok(resp) => resp,
            Err(e) => {
                proof {
                    let t = seq![None::<ResponseModel>];
                    assert(fetch_run(url@, hosts, done + t, (MAX_REDIRECTS + 1) as nat) == fetch_run(current@, hosts, t, budget));
                    assert(fetch_requests(url@, hosts, done + t) == reqs + fetch_requests(current@, hosts, t));
                    assert(fetch_end(url@, hosts, done + t) == fetch_end(current@, hosts, t));
                    assert(t[0] == None::<ResponseModel>);
                    assert(fetch_run(current@, hosts, t, budget));
                    assert(fetch_requests(current@, hosts, t) =~= seq![current@]);
                    assert(fetch_end(current@, hosts, t).is_none());
                    assert(fetch_run(url@, hosts, done + t, (MAX_REDIRECTS + 1) as nat));
                    assert(transport.requested() =~= start + fetch_requests(url@, hosts, done + t));
                }
                return Err(e);
            },
        };
        let ghost rm = resp@;
        let ghost cur = current@;
        match redirect_step(current.as_str(), resp, allow_hosts) {
            Ok(FetchStep::Follow(next)) => {
                proof {
                    assert(follow(cur, rm, hosts) == Some(next@));
                    assert forall|t: Seq<Option<ResponseModel>>| #![auto]
                        fetch_run(url@, hosts, done.push(Some(rm)) + t, (MAX_REDIRECTS + 1) as nat) == fetch_run(
                            next@,
                            hosts,
                            t,
                            (MAX_REDIRECTS + 1 - (attempt + 1)) as nat,
                        ) && fetch_requests(url@, hosts, done.push(Some(rm)) + t) == reqs.push(cur)
                            + fetch_requests(next@, hosts, t) && fetch_end(url@, hosts, done.push(Some(rm)) + t)
                            == fetch_end(next@, hosts, t) by {
                        let t1 = seq![Some(rm)] + t;
                        assert(done.push(Some(rm)) + t =~= done + t1);
                        assert(fetch_run(url@, hosts, done + t1, (MAX_REDIRECTS + 1) as nat) == fetch_run(cur, hosts, t1, budget));
                        assert(fetch_requests(url@, hosts, done + t1) == reqs + fetch_requests(cur, hosts, t1));
                        assert(fetch_end(url@, hosts, done + t1) == fetch_end(cur, hosts, t1));
                        assert(t1.skip(1) =~= t);
                        assert(t1[0] == Some(rm));
                        assert(fetch_requests(cur, hosts, t1) == seq![cur] + fetch_requests(next@, hosts, t));
                        assert(reqs + (seq![cur] + fetch_requests(next@, hosts, t)) =~= reqs.push(cur)
                            + fetch_requests(next@, hosts, t));
                    }
                    done = done.push(Some(rm));
                    reqs = reqs.push(cur);
                }
                current = next;
                attempt += 1;
            },
            Ok(FetchStep::Done(body)) => {
                proof {
                    let t = seq![Some(rm)];
                    assert(fetch_run(url@, hosts, done + t, (MAX_REDIRECTS + 1) as nat) == fetch_run(cur, hosts, t, budget));
                    assert(fetch_requests(url@, hosts, done + t) == reqs + fetch_requests(cur, hosts, t));
                    assert(fetch_end(url@, hosts, done + t) == fetch_end(cur, hosts, t));
                    assert(t[0] == Some(rm));
                    assert(follow(cur, rm, hosts).is_none());
                    assert(fetch_run(cur, hosts, t, budget));
                    assert(fetch_requests(cur, hosts, t) =~= seq![cur]);
                    assert(fetch_end(cur, hosts, t) == Some((body@, cur)));
                    assert(fetch_run(url@, hosts, done + t, (MAX_REDIRECTS + 1) as nat));
                    assert(transport.requested() =~= start + fetch_requests(url@, hosts, done + t));
                }
                return Ok((body, current));
            },
            Err(e) => {
                proof {
                    let t = seq![Some(rm)];
                    assert(fetch_run(url@, hosts, done + t, (MAX_REDIRECTS + 1) as nat) == fetch_run(cur, hosts, t, budget));
                    assert(fetch_requests(url@, hosts, done + t) == reqs + fetch_requests(cur, hosts, t));
                    assert(fetch_end(url@, hosts, done + t) == fetch_end(cur, hosts, t));
                    assert(t[0] == Some(rm));
                    assert(follow(cur, rm, hosts).is_none());
                    assert(fetch_run(cur, hosts, t, budget));
                    assert(fetch_requests(cur, hosts, t) =~= seq![cur]);
                    assert(fetch_end(cur, hosts, t).is_none());
                    assert(fetch_run(url@, hosts, done + t, (MAX_REDIRECTS + 1) as nat));
                    assert(transport.requested() =~= start + fetch_requests(url@, hosts, done + t));
                }
                return Err(e);
            },
        }
    }
    proof {
        let t = Seq::<Option<ResponseModel>>::empty();
        assert(fetch_run(url@, hosts, done + t, (MAX_REDIRECTS + 1) as nat) == fetch_run(current@, hosts, t, 0));
        assert(fetch_requests(url@, hosts, done + t) == reqs + fetch_requests(current@, hosts, t));
        assert(fetch_end(url@, hosts, done + t) == fetch_end(current@, hosts, t));
        assert(reqs + fetch_requests(current@, hosts, t) =~= reqs);
        assert(fetch_run(url@, hosts, done + t, (MAX_REDIRECTS + 1) as nat));
        assert(transport.requested() == start + fetch_requests(url@, hosts, done + t));
    }
    Err(Error::FetchFailed { url: own(url), reason: own("too many redirects (>5)") })
}

// ---------------------------------------------------------------------------
// Cache identity and the fetch gate
// ---------------------------------------------------------------------------

/// Bytes hashed for a prebuild cache key: a tag, then each part, each
/// followed by a NUL byte.
pub open spec fn cache_key_bytes(parts: Seq<Seq<char>>) -> Seq<u8>
    decreases parts.len(),
{
    if parts.len() == 0 {
        vstd::utf8::encode_utf8("weave-prebuild-v1"@) + seq![0u8]
    } else {
        cache_key_bytes(parts.drop_last()) + vstd::utf8::encode_utf8(parts.last()) + seq![0u8]
    }
}

/// The parts of a prebuild identity.
pub open spec fn cache_key_parts(spec: PrebuildFetchSpec, os: Seq<char>, cpu: Seq<char>, abi: Seq<char>) -> Seq<Seq<char>> {
    seq![spec.package@, spec.url@, spec.integrity@, spec.output@, os, cpu, abi]
}

/// Adding a part appends its UTF-8 bytes and a zero byte.
proof fn lemma_cache_key_bytes_push(parts: Seq<Seq<char>>, x: Seq<char>)
    ensures
        cache_key_bytes(parts.push(x)) == cache_key_bytes(parts) + vstd::utf8::encode_utf8(x) + seq![0u8],
{
    assert(parts.push(x).drop_last() =~= parts);
}

/// The prebuild cache key tells platforms and ABIs apart: for one fetch
/// spec, the bytes hashed for two identities agree only when the OS, CPU
/// and Node ABI agree field by field, so a prebuild cached for one CPU (or
/// OS, or ABI) is never filed under another's key bytes.
pub proof fn lemma_cache_key_identity_injective(
    spec: PrebuildFetchSpec,
    os1: Seq<char>,
    cpu1: Seq<char>,
    abi1: Seq<char>,
    os2: Seq<char>,
    cpu2: Seq<char>,
    abi2: Seq<char>,
)
    requires
        cache_key_bytes(cache_key_parts(spec, os1, cpu1, abi1)) == cache_key_bytes(cache_key_parts(spec, os2, cpu2, abi2)),
    ensures
        (os1 == os2 && abi1 == abi2) ==> cpu1 == cpu2,
        (cpu1 == cpu2 && abi1 == abi2) ==> os1 == os2,
        (os1 == os2 && cpu1 == cpu2) ==> abi1 == abi2,
{
    let z = seq![0u8];
    let base = seq![spec.package@, spec.url@, spec.integrity@, spec.output@];
    let b1 = cache_key_bytes(cache_key_parts(spec, os1, cpu1, abi1));
    let b2 = cache_key_bytes(cache_key_parts(spec, os2, cpu2, abi2));
    assert(cache_key_parts(spec, os1, cpu1, abi1) =~= base.push(os1).push(cpu1).push(abi1));
    assert(cache_key_parts(spec, os2, cpu2, abi2) =~= base.push(os2).push(cpu2).push(abi2));
    lemma_cache_key_bytes_push(base, os1);
    lemma_cache_key_bytes_push(base.push(os1), cpu1);
    lemma_cache_key_bytes_push(base.push(os1).push(cpu1), abi1);
    lemma_cache_key_bytes_push(base, os2);
    lemma_cache_key_bytes_push(base.push(os2), cpu2);
    lemma_cache_key_bytes_push(base.push(os2).push(cpu2), abi2);
    let e = |t: Seq<char>| vstd::utf8::encode_utf8(t);
    let k = cache_key_bytes(base);
    if os1 == os2 && abi1 == abi2 {
        let p = k + e(os1) + z;
        let sfx = z + e(abi1) + z;
        assert(b1 =~= p + e(cpu1) + sfx);
        assert(b2 =~= p + e(cpu2) + sfx);
        crate::text::lemma_utf8_framed(p, cpu1, cpu2, sfx);
    }
    if cpu1 == cpu2 && abi1 == abi2 {
        let sfx = z + e(cpu1) + z + e(abi1) + z;
        assert(b1 =~= k + e(os1) + sfx);
        assert(b2 =~= k + e(os2) + sfx);
        crate::text::lemma_utf8_framed(k, os1, os2, sfx);
    }
    if os1 == os2 && cpu1 == cpu2 {
        let p = k + e(os1) + z + e(cpu1) + z;
        assert(b1 =~= p + e(abi1) + z);
        assert(b2 =~= p + e(abi2) + z);
        crate::text::lemma_utf8_framed(p, abi1, abi2, z);
    }
}

pub(crate) fn push_part(buf: &mut Vec<u8>, part: &str)
    ensures
        final(buf)@ == old(buf)@ + vstd::utf8::encode_utf8(part@) + seq![0u8],
{
    let b = part.as_bytes();
    let ghost start = buf@;
    let mut i: usize = 0;
    while i < b.len()
        invariant
            i <= b@.len(),
            b@ == vstd::utf8::encode_utf8(part@),
            buf@ == start + b@.take(i as int),
        decreases b@.len() - i,
    {
        buf.push(b[i]);
        i += 1;
        assert(buf@ =~= start + b@.take(i as int));
    }
    assert(b@.take(b@.len() as int) =~= b@);
    buf.push(0u8);
}

/// Cache key of a prebuild identity: SHA-256 (hex) of its parts.
pub fn prebuild_cache_key(spec: &PrebuildFetchSpec, os: &str, cpu: &str, abi: &str) -> (r: String)
    ensures
        r@ == hex_of(sha256(cache_key_bytes(cache_key_parts(*spec, os@, cpu@, abi@)))),
{
    let mut buf: Vec<u8> = Vec::new();
    let ghost p = cache_key_parts(*spec, os@, cpu@, abi@);
    push_part(&mut buf, "weave-prebuild-v1");
    assert(buf@ =~= cache_key_bytes(p.take(0)));
    push_part(&mut buf, spec.package.as_str());
    assert(p.take(1).drop_last() =~= p.take(0));
    assert(buf@ == cache_key_bytes(p.take(1)));
    push_part(&mut buf, spec.url.as_str());
    assert(p.take(2).drop_last() =~= p.take(1));
    assert(buf@ == cache_key_bytes(p.take(2)));
    push_part(&mut buf, spec.integrity.as_str());
    assert(p.take(3).drop_last() =~= p.take(2));
    assert(buf@ == cache_key_bytes(p.take(3)));
    push_part(&mut buf, spec.output.as_str());
    assert(p.take(4).drop_last() =~= p.take(3));
    assert(buf@ == cache_key_bytes(p.take(4)));
    push_part(&mut buf, os);
    assert(p.take(5).drop_last() =~= p.take(4));
    assert(buf@ == cache_key_bytes(p.take(5)));
    push_part(&mut buf, cpu);
    assert(p.take(6).drop_last() =~= p.take(5));
    assert(buf@ == cache_key_bytes(p.take(6)));
    push_part(&mut buf, abi);
    assert(p.take(7).drop_last() =~= p.take(6));
    assert(buf@ == cache_key_bytes(p.take(7)));
    assert(p.take(7) =~= p);
    let d = sha256_digest(buf.as_slice());
    let ds = d.as_slice();
    assert(ds@ == d@);
    hex_encode(ds)
}

/// The reason given when fetches are configured but none matches the host.
pub open spec fn no_match_reason(package: Seq<char>) -> Seq<char> {
    "prebuild fetch configured for "@ + debug_quoted(package)
        + " but no spec matches current OS/CPU/Node ABI (fail closed)"@
}

/// The reason given when the profile does not permit network.
pub open spec fn offline_reason(package: Seq<char>) -> Seq<char> {
    "prebuild fetch for "@ + debug_quoted(package)
        + " requires execution.profile = \"prebuild-fetch\" (offline profile refuses network)"@
}

/// The reason given when the output is not declared for the package.
pub open spec fn undeclared_reason(output: Seq<char>, package: Seq<char>) -> Seq<char> {
    "prebuild output "@ + debug_quoted(output) + " is not in declared_outputs for "@ + debug_quoted(
        package,
    )
}

/// Checks on the single selected spec before anything is fetched.
pub open spec fn gate_on_spec(cfg: ExecutionConfig, spec: PrebuildFetchSpec, package: Seq<char>, host: HostPlatform, abi: Seq<char>, r: Result<Option<&PrebuildFetchSpec>, Error>) -> bool {
    match parse_https_host_spec(spec.url@) {
        Err(_) => false,
        Ok(sh) => {
            let plan = plan_model(cfg, spec, host, abi, sh.0, sh.1);
            if !plan.host_allowed || !plan.selected {
                r matches Err(Error::InvalidState { path, reason }) && path@ == config_path()
                    && reason@ == "prebuild fetch refused: "@ + plan.reason
            } else if cfg.profile@ != "prebuild-fetch"@ {
                r matches Err(Error::InvalidState { path, reason }) && path@ == config_path()
                    && reason@ == offline_reason(package)
            } else if crate::paths::declared_output_problem(spec.output@).is_some() {
                r matches Err(e) && e is MaterializationFailed && Some(e.reason_of())
                    == crate::paths::declared_output_problem(spec.output@)
            } else if !list_has(cfg.spec_outputs_for(package), spec.output@) {
                r matches Err(Error::InvalidState { path, reason }) && path@ == config_path()
                    && reason@ == undeclared_reason(spec.output@, package)
            } else {
                r matches Ok(Some(s)) && *s == spec
            }
        },
    }
}

/// The policy gate in front of a prebuild download for `package`: which
/// configured fetch (if any) may run on this host/ABI, or why none may.
/// Nothing is downloaded or written here.
pub fn prebuild_gate<'a>(cfg: &'a ExecutionConfig, package: &str, host: &HostPlatform, abi: &str) -> (r: Result<Option<&'a PrebuildFetchSpec>, Error>)
    requires
        cfg.declared_outputs.wf(),
    ensures
        ({
            let fs = fetches_named(cfg.prebuild.fetches@, package@);
            if fs.len() == 0 {
                r matches Ok(None)
            } else {
                match plans_of(*cfg, fs, *host, abi@) {
                    Err(e) => r matches Err(Error::InvalidState { path, reason }) && path@
                        == config_path() && reason@ == e,
                    Ok(ps) => {
                        let sel = selected_specs(fs, ps);
                        if sel.len() == 0 {
                            if cfg.profile@ == "prebuild-fetch"@ {
                                r matches Err(Error::InvalidState { path, reason }) && path@
                                    == config_path() && reason@ == no_match_reason(package@)
                            } else {
                                r matches Ok(None)
                            }
                        } else if sel.len() > 1 {
                            r matches Err(Error::InvalidState { path, reason }) && path@
                                == config_path() && reason@ == ambiguous_reason(package@)
                        } else {
                            gate_on_spec(*cfg, sel[0], package@, *host, abi@, r)
                        }
                    },
                }
            }
        }),
{
    let specs = cfg.prebuild_fetches_for(package);
    assert(specs@.map_values(|f: &PrebuildFetchSpec| *f) == fetches_named(cfg.prebuild.fetches@, package@));
    if specs.len() == 0 {
        return Ok(None);
    }
    let spec = match select_prebuild_spec(cfg, package, host, abi) {
        Err(e) => {
            return Err(e);
        },
        Ok(None) => {
            if cfg.allows_prebuild_network() {
                let mut m = chars_of("prebuild fetch configured for ");
                extend_str(&mut m, debug_str(package).as_str());
                extend_str(&mut m, " but no spec matches current OS/CPU/Node ABI (fail closed)");
                return Err(Error::InvalidState { path: own(".weave/config.toml"), reason: string_of(&m) });
            }
            return Ok(None);
        },
        Ok(Some(spec)) => spec,
    };
    proof {
        let fs = fetches_named(cfg.prebuild.fetches@, package@);
        lemma_selected_parse(*cfg, fs, *host, abi@);
    }
    let plan = match plan_one(cfg, spec, host, abi) {
        Ok(p) => p,
        Err(e) => {
            return Err(e);
        },
    };
    if !plan.host_allowed || !plan.selected {
        return Err(
            Error::InvalidState {
                path: own(".weave/config.toml"),
                reason: crate::text::concat("prebuild fetch refused: ", plan.reason.as_str()),
            },
        );
    }
    if !cfg.allows_prebuild_network() {
        let mut m = chars_of("prebuild fetch for ");
        extend_str(&mut m, debug_str(package).as_str());
        extend_str(&mut m, " requires execution.profile = \"prebuild-fetch\" (offline profile refuses network)");
        return Err(Error::InvalidState { path: own(".weave/config.toml"), reason: string_of(&m) });
    }
    match crate::paths::validate_declared_output(spec.output.as_str()) {
        Err(e) => {
            return Err(e);
        },
        Ok(_) => {},
    }
    let declared = cfg.outputs_for(package);
    if !crate::text::vec_has(&declared, spec.output.as_str()) {
        let mut m = chars_of("prebuild output ");
        extend_str(&mut m, debug_str(spec.output.as_str()).as_str());
        extend_str(&mut m, " is not in declared_outputs for ");
        extend_str(&mut m, debug_str(package).as_str());
        return Err(Error::InvalidState { path: own(".weave/config.toml"), reason: string_of(&m) });
    }
    Ok(Some(spec))
}

/// When planning succeeds, every selected spec's URL parses.
pub proof fn lemma_selected_parse(cfg: ExecutionConfig, fs: Seq<PrebuildFetchSpec>, host: HostPlatform, abi: Seq<char>)
    ensures
        plans_of(cfg, fs, host, abi) matches Ok(ps) ==> ps.len() == fs.len() && forall|i: int|
            0 <= i < selected_specs(fs, ps).len() ==> parse_https_host_spec(
                #[trigger] selected_specs(fs, ps)[i].url@,
            ).is_ok(),
    decreases fs.len(),
{
    if fs.len() > 0 {
        lemma_selected_parse(cfg, fs.drop_last(), host, abi);
        match plans_of(cfg, fs.drop_last(), host, abi) {
            Ok(ps0) => {
                match parse_https_host_spec(fs.last().url@) {
                    Ok(sh) => {
                        let ps = ps0.push(plan_model(cfg, fs.last(), host, abi, sh.0, sh.1));
                        assert(ps.drop_last() =~= ps0);
                        let prev = selected_specs(fs.drop_last(), ps0);
                        let sel = selected_specs(fs, ps);
                        if plans_of(cfg, fs, host, abi) == Ok::<Seq<PlanModel>, Seq<char>>(ps) {
                            assert(ps.len() == fs.len());
                            assert(ps.last().selected ==> sel == prev.push(fs.last()));
                            assert(!ps.last().selected ==> sel == prev);
                            assert forall|i: int| 0 <= i < sel.len() implies parse_https_host_spec(
                                #[trigger] sel[i].url@,
                            ).is_ok() by {
                                if i < prev.len() {
                                    assert(sel[i] == prev[i]);
                                    assert(parse_https_host_spec(prev[i].url@).is_ok());
                                } else {
                                    assert(ps.last().selected);
                                    assert(sel[i] == fs.last());
                                    assert(parse_https_host_spec(fs.last().url@) == Ok::<(Seq<char>, Seq<char>), Seq<char>>(sh));
                                }
                            }
                        }
                    },
                    Err(_) => {},
                }
            },
            Err(_) => {},
        }
    }
}

/// Provenance recorded with a verified prebuild artifact.
#[derive(Debug, PartialEq, Eq)]
pub struct PrebuildProvenance {
    /// Package name.
    pub package: String,
    /// Final URL after approved redirects.
    pub url: String,
    /// SRI string.
    pub integrity: String,
    /// Relative output path.
    pub output: String,
    /// npm OS token.
    pub os: String,
    /// npm CPU token.
    pub cpu: String,
    /// Node ABI.
    pub node_abi: String,
    /// Node version.
    pub node_version: String,
    /// Content-addressed id of the verified blob.
    pub artifact_id: String,
    /// Cache key for this prebuild identity.
    pub cache_key: String,
    /// Profile used (`prebuild-fetch`).
    pub profile: String,
}

/// A cached artifact may be reused only for the platform and ABI it was
/// recorded for.
pub fn check_cached_provenance(prov: &PrebuildProvenance, abi: &str, host: &HostPlatform) -> (r: Result<(), Error>)
    ensures
        r is Ok <==> (prov.node_abi@ == abi@ && prov.os@ == host.os@ && prov.cpu@ == host.cpu@),
        r matches Err(Error::InvalidState { path, reason }) ==> path@ == "exec/prebuild-cache"@
            && reason@ == "prebuild cache provenance ABI/platform mismatch (fail closed)"@,
        r is Err ==> r matches Err(Error::InvalidState { .. }),
{
    if !str_eq(prov.node_abi.as_str(), abi) || !str_eq(prov.os.as_str(), host.os.as_str()) || !str_eq(
        prov.cpu.as_str(),
        host.cpu.as_str(),
    ) {
        return Err(
            Error::InvalidState {
                path: own("exec/prebuild-cache"),
                reason: own("prebuild cache provenance ABI/platform mismatch (fail closed)"),
            },
        );
    }
    Ok(())
}

/// A cache index entry must carry the key it is filed under.
pub fn check_cache_index(prov: &PrebuildProvenance, cache_key: &str) -> (r: Result<(), Error>)
    ensures
        r is Ok <==> prov.cache_key@ == cache_key@,
        r matches Err(Error::InvalidState { path, reason }) ==> path@ == "exec/prebuild-cache"@
            && reason@ == "prebuild cache_key mismatch"@,
        r is Err ==> r matches Err(Error::InvalidState { .. }),
{
    if !str_eq(prov.cache_key.as_str(), cache_key) {
        return Err(
            Error::InvalidState {
                path: own("exec/prebuild-cache"),
                reason: own("prebuild cache_key mismatch"),
            },
        );
    }
    Ok(())
}

/// Outcome of placing a verified prebuild into a candidate package.
#[derive(Debug)]
pub struct PrebuildEnsureReport {
    /// Seal report after placing declared outputs.
    pub seal: ExecSealReport,
    /// True when verified bytes came from cache (no network).
    pub cache_hit: bool,
    /// Provenance for the fetched/cached artifact.
    pub provenance: PrebuildProvenance,
}

/// `bytes` match `integrity`: their digest under its algorithm is its digest.
pub open spec fn integrity_ok(integrity: Integrity, bytes: Seq<u8>) -> bool {
    digest_for(integrity.algorithm@, bytes) matches Some(d) && b64_encode(d) == integrity.digest@
}

/// Download the artifact `spec` names over allowlisted HTTPS, check it
/// against `integrity`, and record where it came from for `host`, `abi` and
/// `node_version` under `cache_key`. Nothing is written: the caller stores
/// the bytes and the record.
pub fn fetch_verified_prebuild<T: PrebuildTransport>(
    transport: &mut T,
    allow_hosts: &Vec<String>,
    spec: &PrebuildFetchSpec,
    integrity: &Integrity,
    host: &HostPlatform,
    abi: &str,
    node_version: &str,
    cache_key: &str,
) -> (r: Result<(Vec<u8>, PrebuildProvenance), Error>)
    ensures
        fetch_url_problem(spec.url@, allow_hosts.deep_view()) matches Some(p) ==> (r matches Err(
            Error::InvalidState { path, reason },
        ) && path@ == spec.url@ && reason@ == p && final(transport).requested() == old(transport).requested()),
        forall|i: int|
            old(transport).requested().len() <= i < final(transport).requested().len() ==> fetch_url_problem(
                #[trigger] final(transport).requested()[i],
                allow_hosts.deep_view(),
            ).is_none(),
        final(transport).requested().len() <= old(transport).requested().len() + MAX_REDIRECTS + 1,
        r matches Ok((bytes, prov)) ==> {
            &&& integrity_ok(*integrity, bytes@)
            &&& fetch_url_problem(prov.url@, allow_hosts.deep_view()).is_none()
            &&& exists|rs: Seq<Option<ResponseModel>>|
                #[trigger] fetch_run(spec.url@, allow_hosts.deep_view(), rs, (MAX_REDIRECTS + 1) as nat)
                    && final(transport).requested() == old(transport).requested() + fetch_requests(
                    spec.url@,
                    allow_hosts.deep_view(),
                    rs,
                ) && fetch_end(spec.url@, allow_hosts.deep_view(), rs) == Some((bytes@, prov.url@))
            &&& prov.package@ == spec.package@
            &&& prov.integrity@ == spec.integrity@
            &&& prov.output@ == spec.output@
            &&& prov.os@ == host.os@
            &&& prov.cpu@ == host.cpu@
            &&& prov.node_abi@ == abi@
            &&& prov.node_version@ == node_version@
            &&& prov.artifact_id@ == hex_of(sha256(bytes@))
            &&& prov.cache_key@ == cache_key@
            &&& prov.profile@ == "prebuild-fetch"@
        },
{
    let (bytes, final_url) = match https_fetch_allowlisted(transport, spec.url.as_str(), allow_hosts) {
        Ok(got) => got,
        Err(e) => {
            return Err(e);
        },
    };
    match integrity.verify(bytes.as_slice(), spec.package.as_str()) {
        Ok(()) => {},
        Err(e) => {
            let mut m = chars_of("prebuild integrity verification failed: ");
            extend_str(&mut m, e.reason().as_str());
            return Err(Error::InvalidState { path: own(spec.url.as_str()), reason: string_of(&m) });
        },
    }
    let id = hash_bytes(bytes.as_slice());
    let provenance = PrebuildProvenance {
        package: own(spec.package.as_str()),
        url: final_url,
        integrity: own(spec.integrity.as_str()),
        output: own(spec.output.as_str()),
        os: own(host.os.as_str()),
        cpu: own(host.cpu.as_str()),
        node_abi: own(abi),
        node_version: own(node_version),
        artifact_id: own(id.as_str()),
        cache_key: own(cache_key),
        profile: own("prebuild-fetch"),
    };
    Ok((bytes, provenance))
}

/// Reuse cached bytes for a prebuild: they must still match `integrity`, and
/// the record must be for this host and ABI.
pub fn check_cached_prebuild(
    integrity: &Integrity,
    bytes: &[u8],
    prov: &PrebuildProvenance,
    abi: &str,
    host: &HostPlatform,
) -> (r: Result<(), Error>)
    ensures
        r is Ok <==> (integrity_ok(*integrity, bytes@) && prov.node_abi@ == abi@ && prov.os@ == host.os@
            && prov.cpu@ == host.cpu@),
        !integrity_ok(*integrity, bytes@) ==> (r matches Err(Error::IntegrityCheckFailed { package, .. })
            && package@ == prov.package@),
{
    match integrity.verify(bytes, prov.package.as_str()) {
        Ok(()) => {},
        Err(e) => {
            return Err(e);
        },
    }
    check_cached_provenance(prov, abi, host)
}

// ---------------------------------------------------------------------------
// Scripted transport
// ---------------------------------------------------------------------------

/// In-memory scripted transport: answers scripted URLs and counts requests.
#[derive(Debug)]
pub struct MockPrebuildTransport {
    responses: Vec<(String, PrebuildHttpResponse)>,
    hits: Vec<(String, usize)>,
    requests: Vec<String>,
}

/// The response scripted for `url` (the last entry for it), if any.
pub open spec fn scripted_in(es: Seq<(String, PrebuildHttpResponse)>, url: Seq<char>) -> Option<ResponseModel>
    decreases es.len(),
{
    if es.len() == 0 {
        None
    } else if es.last().0@ == url {
        Some(es.last().1@)
    } else {
        scripted_in(es.drop_last(), url)
    }
}

/// Requests counted for `url` (the last entry for it).
pub open spec fn hits_in(es: Seq<(String, usize)>, url: Seq<char>) -> nat
    decreases es.len(),
{
    if es.len() == 0 {
        0
    } else if es.last().0@ == url {
        es.last().1 as nat
    } else {
        hits_in(es.drop_last(), url)
    }
}

impl MockPrebuildTransport {
    /// The response scripted for `url`, if any.
    pub closed spec fn scripted(&self, url: Seq<char>) -> Option<ResponseModel> {
        scripted_in(self.responses@, url)
    }

    /// Requests made for `url` so far.
    pub closed spec fn hits(&self, url: Seq<char>) -> nat {
        hits_in(self.hits@, url)
    }

    /// A transport with nothing scripted.
    pub fn new() -> (r: MockPrebuildTransport)
        ensures
            forall|u: Seq<char>| r.scripted(u) is None && r.hits(u) == 0,
    {
        MockPrebuildTransport { responses: Vec::new(), hits: Vec::new(), requests: Vec::new() }
    }

    /// Script `resp` for `url` (replacing an earlier script for it).
    pub fn with(self, url: String, resp: PrebuildHttpResponse) -> (r: MockPrebuildTransport)
        ensures
            r.scripted(url@) == Some(resp@),
            forall|u: Seq<char>| u != url@ ==> r.scripted(u) == self.scripted(u),
            forall|u: Seq<char>| r.hits(u) == self.hits(u),
    {
        let mut s = self;
        let ghost before = s.responses@;
        s.responses.push((url, resp));
        assert(s.responses@.drop_last() =~= before);
        s
    }

    /// How many times `url` was requested.
    pub fn hit_count(&self, url: &str) -> (r: usize)
        ensures
            r == self.hits(url@),
    {
        let mut i = self.hits.len();
        assert(self.hits@.take(i as int) =~= self.hits@);
        while i > 0
            invariant
                i <= self.hits@.len(),
                hits_in(self.hits@, url@) == hits_in(self.hits@.take(i as int), url@),
            decreases i,
        {
            assert(self.hits@.take(i as int).drop_last() =~= self.hits@.take(i - 1));
            if crate::text::str_eq(self.hits[i - 1].0.as_str(), url) {
                return self.hits[i - 1].1;
            }
            i -= 1;
        }
        0
    }
}

impl PrebuildTransport for MockPrebuildTransport {
    closed spec fn requested(&self) -> Seq<Seq<char>> {
        self.requests.deep_view()
    }

    fn get_no_redirect(&mut self, url: &str) -> (r: Result<PrebuildHttpResponse, Error>)
        ensures
            final(self).hits(url@) == (if old(self).hits(url@) < usize::MAX {
                old(self).hits(url@) + 1
            } else {
                old(self).hits(url@)
            }),
            forall|u: Seq<char>| u != url@ ==> final(self).hits(u) == old(self).hits(u),
            forall|u: Seq<char>| final(self).scripted(u) == old(self).scripted(u),
            match old(self).scripted(url@) {
                Some(m) => r matches Ok(resp) && resp@ == m,
                None => r matches Err(Error::FetchFailed { url: u, reason }) && u@ == url@ && reason@
                    == "mock transport: URL not scripted"@,
            },
    {
        let mut found: Option<PrebuildHttpResponse> = None;
        let mut i = self.responses.len();
        assert(self.responses@.take(i as int) =~= self.responses@);
        while i > 0
            invariant_except_break
                found is None,
            invariant
                i <= self.responses@.len(),
                scripted_in(self.responses@, url@) == scripted_in(self.responses@.take(i as int), url@),
            ensures
                match found {
                    Some(resp) => scripted_in(self.responses@, url@) == Some(resp@),
                    None => i == 0,
                },
            decreases i,
        {
            assert(self.responses@.take(i as int).drop_last() =~= self.responses@.take(i - 1));
            if crate::text::str_eq(self.responses[i - 1].0.as_str(), url) {
                found = Some(self.responses[i - 1].1.duplicate());
                break;
            }
            i -= 1;
        }
        proof {
            if found is None {
                assert(self.responses@.take(0) =~= Seq::<(String, PrebuildHttpResponse)>::empty());
            }
        }
        let n = self.hit_count(url);
        let next = if n < usize::MAX {
            n + 1
        } else {
            n
        };
        let ghost before = self.hits@;
        self.hits.push((own(url), next));
        assert(self.hits@.drop_last() =~= before);
        let ghost reqs = self.requests.deep_view();
        self.requests.push(own(url));
        assert(self.requests.deep_view() =~= reqs.push(url@));
        match found {
            Some(resp) => Ok(resp),
            None => Err(Error::FetchFailed { url: own(url), reason: own("mock transport: URL not scripted") }),
        }
    }
}

} // verus!
