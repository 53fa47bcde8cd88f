//! Non-executing lifecycle/native execution planning.
//!
//! Builds a dry-run plan of what would execute under the sandboxed execution
//! model, keeping discovered candidates apart from config-allowed outputs.
//! Nothing here runs scripts or touches package trees.
use vstd::prelude::*;
use crate::config::{fetches_named, ExecutionConfig};
use crate::discovery::{
    cand_views, native_name, review_spec, script_views, suggestable, DiscoveredScript,
    ExecNeedClass, ExecSandboxProfile, OutputCandidate, PackageDiscovery, PolicyReviewStatus,
};
use crate::fetch::{plan_prebuild_for_package, plan_views, plans_of, PlanModel, PrebuildPlanEntry};
use crate::lockfile::{DependencyGraph, PackageNode};
use crate::prebuild::{req_views, HostPlatform, NativePrebuildReport, NativePrebuildRequirement, PrebuildResolveStatus};
use crate::text::{chars_of, ends_with, extend_str, has_sub, list_has, lower, opt_view, own, string_of};
use crate::textmap::{lemma_lex_asym, lemma_lex_trans, lex_lt};

verus! {

/// One package entry in an execution plan.
#[derive(Debug)]
pub struct ExecPlanEntry {
    /// Lockfile package key.
    pub package_key: String,
    /// Package name when known.
    pub name: Option<String>,
    /// Classification.
    pub class: ExecNeedClass,
    /// Whether the package appears to need opt-in execution (pre-policy).
    pub needs_execution: bool,
    /// Whether current config would allow running under `--with-exec`.
    pub would_execute: bool,
    /// Lifecycle script names that would be candidates (lockfile heuristic).
    pub candidate_scripts: Vec<String>,
    /// Scripts discovered from package.json (empty if metadata unavailable).
    pub discovered_scripts: Vec<DiscoveredScript>,
    /// Discovered output path candidates (not approvals).
    pub discovered_output_candidates: Vec<OutputCandidate>,
    /// Outputs currently declared in config for this package.
    pub allowed_outputs: Vec<String>,
    /// Whether the package name appears in `execution.allow_packages`.
    pub package_allowed: bool,
    /// Policy review status vs current config.
    pub policy: PolicyReviewStatus,
    /// True when package.json / static metadata was loaded.
    pub metadata_loaded: bool,
    /// Suggested sandbox profile.
    pub sandbox: ExecSandboxProfile,
    /// Whether a selected prebuild fetch would require network under current profile.
    pub needs_network: bool,
    /// Dry-run prebuild fetch plan entries (no network access).
    pub prebuild: Vec<PrebuildPlanEntry>,
    /// Native prebuild resolution diagnostics (no network).
    pub native_prebuilds: Vec<NativePrebuildRequirement>,
    /// Human-readable rationale (why execution is needed / blocked).
    pub reason: String,
}

/// Full dry-run plan for a dependency graph.
#[derive(Debug)]
pub struct ExecPlan {
    /// Project root when known.
    pub root: Option<String>,
    /// Entries sorted by package key.
    pub entries: Vec<ExecPlanEntry>,
    /// Count with `needs_execution`.
    pub needs_execution_count: usize,
    /// Count that would execute under current allowlist policy.
    pub would_execute_count: usize,
    /// Count still needing human review before allowlisting.
    pub needs_review_count: usize,
    /// Count of packages with selected prebuild network requirements.
    pub needs_network_count: usize,
    /// Count of packages needing manual native prebuild policy.
    pub native_policy_gap_count: usize,
    /// Reminder: no scripts were run building this plan.
    pub executed: bool,
}

impl ExecPlan {
    /// True when any package would require opt-in execution for completeness.
    pub fn needs_opt_in_execution(&self) -> (r: bool)
        ensures
            r == (self.needs_execution_count > 0),
    {
        self.needs_execution_count > 0
    }
}

// ---------------------------------------------------------------------------
// Classification from lockfile data
// ---------------------------------------------------------------------------

/// Lower-cased package name of a node (empty when unknown).
pub open spec fn node_name_l(n: PackageNode) -> Seq<char> {
    lower(
        match opt_view(n.name) {
            Some(s) => s,
            None => Seq::empty(),
        },
    )
}

/// Lockfile-only classification of a node.
pub open spec fn node_class(n: PackageNode) -> ExecNeedClass {
    let l = node_name_l(n);
    if has_sub(l, "electron-chromedriver"@) || ends_with(l, "-installer-script"@) {
        ExecNeedClass::UnsupportedUnsafe
    } else if n.likely_native || native_name(l) {
        ExecNeedClass::NativeBuild
    } else if n.has_install_script {
        ExecNeedClass::GeneratedFiles
    } else {
        ExecNeedClass::ExtractionOnly
    }
}

/// Lifecycle scripts a node would run, from lockfile flags.
pub open spec fn lifecycle_of(n: PackageNode) -> Seq<Seq<char>> {
    if n.has_install_script || n.likely_native {
        seq!["install"@, "postinstall"@]
    } else {
        Seq::empty()
    }
}

/// Lifecycle scripts a node would run, from lockfile flags.
pub fn lifecycle_candidates(node: &PackageNode) -> (r: Vec<String>)
    ensures
        r.deep_view() == lifecycle_of(*node),
{
    if node.has_install_script || node.likely_native {
        let v = vec![own("install"), own("postinstall")];
        assert(v.deep_view() =~= seq!["install"@, "postinstall"@]);
        v
    } else {
        let v: Vec<String> = Vec::new();
        assert(v.deep_view() =~= Seq::<Seq<char>>::empty());
        v
    }
}

/// The fields of a plan entry that planning decides.
pub struct EntryModel {
    pub class: ExecNeedClass,
    pub needs_execution: bool,
    pub would_execute: bool,
    pub package_allowed: bool,
    pub policy: PolicyReviewStatus,
    pub metadata_loaded: bool,
    pub sandbox: ExecSandboxProfile,
    pub needs_network: bool,
    pub reason: Seq<char>,
}

impl ExecPlanEntry {
    /// The decided fields as plain values.
    pub open spec fn model(&self) -> EntryModel {
        EntryModel {
            class: self.class,
            needs_execution: self.needs_execution,
            would_execute: self.would_execute,
            package_allowed: self.package_allowed,
            policy: self.policy,
            metadata_loaded: self.metadata_loaded,
            sandbox: self.sandbox,
            needs_network: self.needs_network,
            reason: self.reason@,
        }
    }
}

/// The entry classification alone gives a node.
pub open spec fn classified(n: PackageNode) -> EntryModel {
    let c = node_class(n);
    EntryModel {
        class: c,
        needs_execution: c == ExecNeedClass::NativeBuild || c == ExecNeedClass::GeneratedFiles,
        would_execute: false,
        package_allowed: false,
        policy: if c == ExecNeedClass::UnsupportedUnsafe {
            PolicyReviewStatus::BlockedUnsafe
        } else if c == ExecNeedClass::ExtractionOnly {
            PolicyReviewStatus::ExtractionOnly
        } else {
            PolicyReviewStatus::MetadataMissing
        },
        metadata_loaded: false,
        sandbox: if c == ExecNeedClass::NativeBuild {
            ExecSandboxProfile::PrebuildFetch
        } else {
            ExecSandboxProfile::Offline
        },
        needs_network: false,
        reason: if c == ExecNeedClass::UnsupportedUnsafe {
            "classified unsupported/unsafe — never auto-executed"@
        } else if c == ExecNeedClass::NativeBuild {
            "likely native addon — rebuild/prebuild may be required (docs/native.md)"@
        } else if c == ExecNeedClass::GeneratedFiles {
            "hasInstallScript — may generate runtime files"@
        } else {
            "extraction-only"@
        },
    }
}

/// Lifecycle scripts a node lists as candidates: none for a package that is
/// only extracted or is unsupported.
pub open spec fn node_scripts(n: PackageNode) -> Seq<Seq<char>> {
    if node_class(n) == ExecNeedClass::UnsupportedUnsafe || node_class(n) == ExecNeedClass::ExtractionOnly {
        Seq::<Seq<char>>::empty()
    } else {
        lifecycle_of(n)
    }
}

/// Classify a lockfile node for execution planning (no disk access).
pub fn classify_node(node: &PackageNode) -> (r: ExecPlanEntry)
    ensures
        r.package_key@ == node.key@,
        opt_view(r.name) == opt_view(node.name),
        r.model() == classified(*node),
        r.candidate_scripts.deep_view() == node_scripts(*node),
        r.discovered_scripts@.len() == 0,
        r.discovered_output_candidates@.len() == 0,
        r.allowed_outputs@.len() == 0,
        r.prebuild@.len() == 0,
        r.native_prebuilds@.len() == 0,
{
    let name = crate::text::copy_opt(&node.name);
    let name_l = match &node.name {
        Some(n) => string_of(&crate::text::lower_chars(&chars_of(n.as_str()))),
        None => String::new(),
    };
    proof {
        reveal_strlit("");
        assert(lower(Seq::<char>::empty()) =~= Seq::<char>::empty());
    }
    let unsafe_name = crate::text::str_contains(name_l.as_str(), "electron-chromedriver")
        || crate::text::str_ends_with(name_l.as_str(), "-installer-script");
    let native = node.likely_native || crate::discovery::looks_native_name(name_l.as_str());
    let (class, needs, scripts, policy, sandbox, reason) = if unsafe_name {
        let v: Vec<String> = Vec::new();
        assert(v.deep_view() =~= Seq::<Seq<char>>::empty());
        (
            ExecNeedClass::UnsupportedUnsafe,
            false,
            v,
            PolicyReviewStatus::BlockedUnsafe,
            ExecSandboxProfile::Offline,
            own("classified unsupported/unsafe — never auto-executed"),
        )
    } else if native {
        (
            ExecNeedClass::NativeBuild,
            true,
            lifecycle_candidates(node),
            PolicyReviewStatus::MetadataMissing,
            ExecSandboxProfile::PrebuildFetch,
            own("likely native addon — rebuild/prebuild may be required (docs/native.md)"),
        )
    } else if node.has_install_script {
        (
            ExecNeedClass::GeneratedFiles,
            true,
            lifecycle_candidates(node),
            PolicyReviewStatus::MetadataMissing,
            ExecSandboxProfile::Offline,
            own("hasInstallScript — may generate runtime files"),
        )
    } else {
        let v: Vec<String> = Vec::new();
        assert(v.deep_view() =~= Seq::<Seq<char>>::empty());
        (
            ExecNeedClass::ExtractionOnly,
            false,
            v,
            PolicyReviewStatus::ExtractionOnly,
            ExecSandboxProfile::Offline,
            own("extraction-only"),
        )
    };
    ExecPlanEntry {
        package_key: own(node.key.as_str()),
        name,
        class,
        needs_execution: needs,
        would_execute: false,
        candidate_scripts: scripts,
        discovered_scripts: Vec::new(),
        discovered_output_candidates: Vec::new(),
        allowed_outputs: Vec::new(),
        package_allowed: false,
        policy,
        metadata_loaded: false,
        sandbox,
        needs_network: false,
        prebuild: Vec::new(),
        native_prebuilds: Vec::new(),
        reason,
    }
}

// ---------------------------------------------------------------------------
// Discovery and configuration
// ---------------------------------------------------------------------------

/// What a discovery makes of an entry.
pub open spec fn discovered(m: EntryModel, d: PackageDiscovery) -> EntryModel {
    if d.blocked_unsafe {
        EntryModel {
            metadata_loaded: d.metadata_loaded,
            class: d.class,
            sandbox: d.sandbox,
            needs_execution: false,
            would_execute: false,
            policy: PolicyReviewStatus::BlockedUnsafe,
            reason: d.reason@,
            ..m
        }
    } else {
        EntryModel {
            metadata_loaded: d.metadata_loaded,
            class: d.class,
            sandbox: d.sandbox,
            needs_execution: d.needs_execution,
            reason: d.reason@,
            ..m
        }
    }
}

/// Record what a discovery found in a plan entry.
pub fn apply_discovery(entry: &mut ExecPlanEntry, d: &PackageDiscovery)
    ensures
        final(entry).model() == discovered(old(entry).model(), *d),
        script_views(final(entry).discovered_scripts@) == script_views(d.discovered_scripts@),
        cand_views(final(entry).discovered_output_candidates@) == cand_views(d.output_candidates@),
        final(entry).candidate_scripts.deep_view() == (if d.discovered_scripts@.len() > 0 {
            crate::discovery::script_names(d.discovered_scripts@)
        } else {
            old(entry).candidate_scripts.deep_view()
        }),
        final(entry).package_key == old(entry).package_key,
        final(entry).name == old(entry).name,
        final(entry).allowed_outputs == old(entry).allowed_outputs,
        final(entry).prebuild == old(entry).prebuild,
        final(entry).native_prebuilds == old(entry).native_prebuilds,
{
    entry.metadata_loaded = d.metadata_loaded;
    entry.discovered_scripts = crate::discovery::copy_scripts(&d.discovered_scripts);
    entry.discovered_output_candidates = crate::discovery::copy_candidates(&d.output_candidates);
    entry.class = d.class;
    entry.sandbox = d.sandbox;
    entry.needs_execution = d.needs_execution;
    entry.reason = own(d.reason.as_str());
    if d.discovered_scripts.len() > 0 {
        let mut names: Vec<String> = Vec::new();
        let mut i: usize = 0;
        while i < d.discovered_scripts.len()
            invariant
                i <= d.discovered_scripts@.len(),
                names@.len() == i,
                forall|j: int| 0 <= j < i ==> #[trigger] names@[j]@ == d.discovered_scripts@[j].name@,
            decreases d.discovered_scripts@.len() - i,
        {
            names.push(own(d.discovered_scripts[i].name.as_str()));
            i += 1;
        }
        assert(names.deep_view() =~= crate::discovery::script_names(d.discovered_scripts@));
        entry.candidate_scripts = names;
    }
    if d.blocked_unsafe {
        entry.policy = PolicyReviewStatus::BlockedUnsafe;
        entry.needs_execution = false;
        entry.would_execute = false;
    }
}

/// Some plan needs network.
pub open spec fn any_network(ps: Seq<PlanModel>) -> bool {
    exists|i: int| 0 <= i < ps.len() && (#[trigger] ps[i]).needs_network
}

/// What the configured prebuild fetches make of an entry.
pub open spec fn prebuild_stage(m: EntryModel, plans: Result<Seq<PlanModel>, Seq<char>>, cfg: ExecutionConfig) -> EntryModel {
    match plans {
        Err(_) => m,
        Ok(ps) => if ps.len() == 0 {
            EntryModel { needs_network: false, ..m }
        } else {
            let ext = m.reason == "extraction-only"@;
            EntryModel {
                needs_network: any_network(ps),
                needs_execution: true,
                sandbox: if cfg.profile@ == "prebuild-fetch"@ {
                    ExecSandboxProfile::PrebuildFetch
                } else {
                    m.sandbox
                },
                reason: if ext {
                    "configured allowlisted prebuild fetch"@
                } else {
                    m.reason
                },
                class: if ext {
                    ExecNeedClass::NativeBuild
                } else {
                    m.class
                },
                ..m
            }
        },
    }
}

/// Review of discovered candidates against the configuration.
pub open spec fn candidate_review(name: Seq<char>, cs: Seq<OutputCandidate>, cfg: ExecutionConfig) -> PolicyReviewStatus {
    if !list_has(cfg.allow_packages.deep_view(), name) {
        PolicyReviewStatus::NeedsReview
    } else {
        let needed = suggestable(cs);
        let allowed = crate::discovery::slashed(cfg.spec_outputs_for(name));
        if needed.len() == 0 {
            PolicyReviewStatus::NeedsReview
        } else if forall|i: int| 0 <= i < needed.len() ==> list_has(allowed, #[trigger] needed[i]) {
            PolicyReviewStatus::Allowed
        } else {
            PolicyReviewStatus::PartialCoverage
        }
    }
}

/// What the allowlist makes of an entry.
pub open spec fn policy_stage(m: EntryModel, name: Seq<char>, cs: Seq<OutputCandidate>, cfg: ExecutionConfig) -> EntryModel {
    let allowed = list_has(cfg.allow_packages.deep_view(), name);
    let outs = cfg.spec_outputs_for(name);
    if m.policy == PolicyReviewStatus::BlockedUnsafe || m.class == ExecNeedClass::UnsupportedUnsafe {
        EntryModel {
            package_allowed: allowed,
            would_execute: false,
            policy: PolicyReviewStatus::BlockedUnsafe,
            needs_network: false,
            ..m
        }
    } else if !m.needs_execution {
        EntryModel {
            package_allowed: allowed,
            would_execute: false,
            policy: PolicyReviewStatus::ExtractionOnly,
            ..m
        }
    } else {
        let policy = if m.metadata_loaded {
            candidate_review(name, cs, cfg)
        } else if allowed && outs.len() > 0 {
            PolicyReviewStatus::Allowed
        } else if allowed {
            PolicyReviewStatus::PartialCoverage
        } else {
            PolicyReviewStatus::MetadataMissing
        };
        let ready = allowed && outs.len() > 0;
        if ready && !cfg.enabled {
            EntryModel {
                package_allowed: allowed,
                policy,
                would_execute: false,
                reason: if policy == PolicyReviewStatus::Allowed {
                    m.reason + "; allowlisted but execution.enabled=false (dual gate)"@
                } else {
                    m.reason
                },
                ..m
            }
        } else {
            EntryModel {
                package_allowed: allowed,
                policy,
                would_execute: ready && cfg.enabled && policy != PolicyReviewStatus::BlockedUnsafe,
                ..m
            }
        }
    }
}

/// Name of an entry for policy lookups (empty when unknown).
pub open spec fn entry_name(e: ExecPlanEntry) -> Seq<char> {
    match opt_view(e.name) {
        Some(n) => n,
        None => Seq::empty(),
    }
}

fn any_needs_network(ps: &Vec<PrebuildPlanEntry>) -> (r: bool)
    ensures
        r == any_network(plan_views(ps@)),
{
    let mut i: usize = 0;
    while i < ps.len()
        invariant
            i <= ps@.len(),
            forall|j: int| 0 <= j < i ==> !(#[trigger] plan_views(ps@)[j]).needs_network,
        decreases ps@.len() - i,
    {
        assert(plan_views(ps@)[i as int] == ps@[i as int]@);
        if ps[i].needs_network {
            return true;
        }
        i += 1;
    }
    false
}

fn apply_prebuilds(entry: &mut ExecPlanEntry, cfg: &ExecutionConfig, name: &str, host: &HostPlatform, abi: &str)
    ensures
        ({
            let plans = plans_of(*cfg, fetches_named(cfg.prebuild.fetches@, name@), *host, abi@);
            &&& final(entry).model() == prebuild_stage(old(entry).model(), plans, *cfg)
            &&& match plans {
                Ok(ps) => plan_views(final(entry).prebuild@) == ps,
                Err(_) => final(entry).prebuild == old(entry).prebuild,
            }
        }),
        final(entry).package_key == old(entry).package_key,
        final(entry).name == old(entry).name,
        final(entry).candidate_scripts == old(entry).candidate_scripts,
        final(entry).discovered_scripts == old(entry).discovered_scripts,
        final(entry).discovered_output_candidates == old(entry).discovered_output_candidates,
        final(entry).native_prebuilds == old(entry).native_prebuilds,
        final(entry).allowed_outputs == old(entry).allowed_outputs,
{
    match plan_prebuild_for_package(cfg, name, host, abi) {
        Ok(prebuilds) => {
            entry.needs_network = any_needs_network(&prebuilds);
            let nonempty = prebuilds.len() > 0;
            entry.prebuild = prebuilds;
            if nonempty {
                entry.needs_execution = true;
                if cfg.allows_prebuild_network() {
                    entry.sandbox = ExecSandboxProfile::PrebuildFetch;
                }
                if crate::text::str_eq(entry.reason.as_str(), "extraction-only") {
                    entry.reason = own("configured allowlisted prebuild fetch");
                    entry.class = ExecNeedClass::NativeBuild;
                }
            }
        },
        Err(_) => {},
    }
}

fn apply_allowlist(entry: &mut ExecPlanEntry, cfg: &ExecutionConfig, name: &str)
    requires
        cfg.declared_outputs.wf(),
    ensures
        final(entry).model() == policy_stage(old(entry).model(), name@, old(entry).discovered_output_candidates@, *cfg),
        final(entry).allowed_outputs.deep_view() == cfg.spec_outputs_for(name@),
        final(entry).package_key == old(entry).package_key,
        final(entry).name == old(entry).name,
        final(entry).candidate_scripts == old(entry).candidate_scripts,
        final(entry).discovered_scripts == old(entry).discovered_scripts,
        final(entry).discovered_output_candidates == old(entry).discovered_output_candidates,
        final(entry).native_prebuilds == old(entry).native_prebuilds,
        final(entry).prebuild == old(entry).prebuild,
{
    entry.package_allowed = cfg.package_allowed(name);
    entry.allowed_outputs = cfg.outputs_for(name);
    if entry.policy == PolicyReviewStatus::BlockedUnsafe || entry.class == ExecNeedClass::UnsupportedUnsafe {
        entry.would_execute = false;
        entry.policy = PolicyReviewStatus::BlockedUnsafe;
        entry.needs_network = false;
        return;
    }
    if !entry.needs_execution {
        entry.would_execute = false;
        entry.policy = PolicyReviewStatus::ExtractionOnly;
        return;
    }
    if entry.metadata_loaded {
        entry.policy = review_entry(entry, cfg, name);
    } else if entry.package_allowed && entry.allowed_outputs.len() > 0 {
        entry.policy = PolicyReviewStatus::Allowed;
    } else if entry.package_allowed {
        entry.policy = PolicyReviewStatus::PartialCoverage;
    } else {
        entry.policy = PolicyReviewStatus::MetadataMissing;
    }
    let ready = entry.package_allowed && entry.allowed_outputs.len() > 0;
    entry.would_execute = ready && cfg.is_enabled() && entry.policy != PolicyReviewStatus::BlockedUnsafe;
    if ready && !cfg.is_enabled() && entry.needs_execution {
        entry.would_execute = false;
        if entry.policy == PolicyReviewStatus::Allowed {
            entry.reason = crate::text::concat(entry.reason.as_str(), "; allowlisted but execution.enabled=false (dual gate)");
        }
    }
}

fn review_entry(entry: &mut ExecPlanEntry, cfg: &ExecutionConfig, name: &str) -> (r: PolicyReviewStatus)
    requires
        cfg.declared_outputs.wf(),
        old(entry).class != ExecNeedClass::UnsupportedUnsafe,
        old(entry).needs_execution,
    ensures
        r == candidate_review(name@, old(entry).discovered_output_candidates@, *cfg),
        *final(entry) == *old(entry),
{
    let mut cands: Vec<OutputCandidate> = Vec::new();
    std::mem::swap(&mut cands, &mut entry.discovered_output_candidates);
    let synth = PackageDiscovery {
        package_dir: String::new(),
        name: own(name),
        class: entry.class,
        sandbox: entry.sandbox,
        needs_execution: entry.needs_execution,
        discovered_scripts: Vec::new(),
        output_candidates: cands,
        metadata_loaded: true,
        reason: String::new(),
        blocked_unsafe: false,
    };
    let r = synth.review_against(cfg);
    let PackageDiscovery { output_candidates, .. } = synth;
    entry.discovered_output_candidates = output_candidates;
    r
}

/// Compare a plan entry with the configuration: allowlist, declared outputs,
/// configured prebuild fetches (planned for `host`/`abi`, never fetched) and
/// the dual gate (`would_execute` needs `enabled`).
pub fn apply_config_policy(entry: &mut ExecPlanEntry, cfg: &ExecutionConfig, host: &HostPlatform, abi: &str)
    requires
        cfg.declared_outputs.wf(),
    ensures
        ({
            let name = entry_name(*old(entry));
            let plans = plans_of(*cfg, fetches_named(cfg.prebuild.fetches@, name), *host, abi@);
            &&& final(entry).model() == policy_stage(
                prebuild_stage(old(entry).model(), plans, *cfg),
                name,
                old(entry).discovered_output_candidates@,
                *cfg,
            )
            &&& final(entry).allowed_outputs.deep_view() == cfg.spec_outputs_for(name)
            &&& match plans {
                Ok(ps) => plan_views(final(entry).prebuild@) == ps,
                Err(_) => final(entry).prebuild == old(entry).prebuild,
            }
        }),
        final(entry).package_key == old(entry).package_key,
        final(entry).name == old(entry).name,
        final(entry).candidate_scripts == old(entry).candidate_scripts,
        final(entry).discovered_scripts == old(entry).discovered_scripts,
        final(entry).discovered_output_candidates == old(entry).discovered_output_candidates,
        final(entry).native_prebuilds == old(entry).native_prebuilds,
{
    let name = match &entry.name {
        Some(n) => own(n.as_str()),
        None => String::new(),
    };
    proof {
        reveal_strlit("");
    }
    assert(name@ == entry_name(*entry));
    apply_prebuilds(entry, cfg, name.as_str(), host, abi);
    apply_allowlist(entry, cfg, name.as_str());
}

/// What a native prebuild report makes of an entry.
pub open spec fn reported(m: EntryModel, needs_manual_policy: bool) -> EntryModel {
    if needs_manual_policy && !m.needs_execution {
        EntryModel {
            needs_execution: true,
            class: ExecNeedClass::NativeBuild,
            reason: m.reason + "; native prebuild policy gap (see native_prebuilds)"@,
            ..m
        }
    } else {
        m
    }
}

/// What the absence of a configuration makes of an entry: nothing is allowlisted.
pub open spec fn unconfigured(m: EntryModel) -> EntryModel {
    EntryModel {
        policy: if m.needs_execution && m.policy != PolicyReviewStatus::BlockedUnsafe {
            if m.metadata_loaded {
                PolicyReviewStatus::NeedsReview
            } else {
                PolicyReviewStatus::MetadataMissing
            }
        } else {
            m.policy
        },
        would_execute: false,
        ..m
    }
}

/// Enrich a plan entry with what was found on disk for its package: its
/// discovery and native prebuild report (when its directory was found and
/// read), then compare with the configuration (or with none).
pub fn enrich_entry(
    entry: &mut ExecPlanEntry,
    discovery: Option<&PackageDiscovery>,
    report: Option<NativePrebuildReport>,
    cfg: Option<&ExecutionConfig>,
    host: &HostPlatform,
    abi: &str,
)
    requires
        cfg matches Some(c) ==> c.declared_outputs.wf(),
    ensures
        ({
            let m1 = match discovery {
                Some(d) => discovered(old(entry).model(), *d),
                None => old(entry).model(),
            };
            let m2 = match report {
                Some(rep) => reported(m1, rep.needs_manual_policy),
                None => m1,
            };
            let cs = match discovery {
                Some(d) => cand_views(d.output_candidates@),
                None => cand_views(old(entry).discovered_output_candidates@),
            };
            &&& match cfg {
                Some(c) => {
                    let name = entry_name(*old(entry));
                    let plans = plans_of(*c, fetches_named(c.prebuild.fetches@, name), *host, abi@);
                    final(entry).model() == policy_stage(
                        prebuild_stage(m2, plans, *c),
                        name,
                        final(entry).discovered_output_candidates@,
                        *c,
                    )
                },
                None => final(entry).model() == unconfigured(m2),
            }
            &&& cand_views(final(entry).discovered_output_candidates@) == cs
            &&& match report {
                Some(rep) => req_views(final(entry).native_prebuilds@) == req_views(rep.requirements@),
                None => final(entry).native_prebuilds == old(entry).native_prebuilds,
            }
        }),
        final(entry).package_key == old(entry).package_key,
        final(entry).name == old(entry).name,
{
    if let Some(d) = discovery {
        apply_discovery(entry, d);
    }
    if let Some(rep) = report {
        let NativePrebuildReport { requirements, needs_manual_policy, .. } = rep;
        entry.native_prebuilds = requirements;
        if needs_manual_policy && !entry.needs_execution {
            entry.needs_execution = true;
            entry.class = ExecNeedClass::NativeBuild;
            entry.reason = crate::text::concat(entry.reason.as_str(), "; native prebuild policy gap (see native_prebuilds)");
        }
    }
    match cfg {
        Some(c) => apply_config_policy(entry, c, host, abi),
        None => {
            if entry.needs_execution && entry.policy != PolicyReviewStatus::BlockedUnsafe {
                entry.policy = if entry.metadata_loaded {
                    PolicyReviewStatus::NeedsReview
                } else {
                    PolicyReviewStatus::MetadataMissing
                };
            }
            entry.would_execute = false;
        },
    }
}

// ---------------------------------------------------------------------------
// Whole plans
// ---------------------------------------------------------------------------

/// Entries needing execution.
pub open spec fn count_needs(es: Seq<ExecPlanEntry>) -> nat
    decreases es.len(),
{
    if es.len() == 0 {
        0
    } else {
        count_needs(es.drop_last()) + if es.last().needs_execution { 1nat } else { 0nat }
    }
}

/// Entries that would execute.
pub open spec fn count_would(es: Seq<ExecPlanEntry>) -> nat
    decreases es.len(),
{
    if es.len() == 0 {
        0
    } else {
        count_would(es.drop_last()) + if es.last().would_execute { 1nat } else { 0nat }
    }
}

/// The policy still needs a human.
pub open spec fn needs_review(p: PolicyReviewStatus) -> bool {
    p == PolicyReviewStatus::NeedsReview || p == PolicyReviewStatus::PartialCoverage || p
        == PolicyReviewStatus::MetadataMissing
}

/// Entries needing review.
pub open spec fn count_review(es: Seq<ExecPlanEntry>) -> nat
    decreases es.len(),
{
    if es.len() == 0 {
        0
    } else {
        count_review(es.drop_last()) + if needs_review(es.last().policy) { 1nat } else { 0nat }
    }
}

/// Entries needing network.
pub open spec fn count_network(es: Seq<ExecPlanEntry>) -> nat
    decreases es.len(),
{
    if es.len() == 0 {
        0
    } else {
        count_network(es.drop_last()) + if es.last().needs_network { 1nat } else { 0nat }
    }
}

/// Some native requirement is neither configured nor suggestable.
pub open spec fn has_gap(rs: Seq<NativePrebuildRequirement>) -> bool {
    exists|i: int|
        0 <= i < rs.len() && #[trigger] rs[i].status != PrebuildResolveStatus::Configured
            && rs[i].status != PrebuildResolveStatus::Suggestable
}

/// Entries with a native policy gap.
pub open spec fn count_gaps(es: Seq<ExecPlanEntry>) -> nat
    decreases es.len(),
{
    if es.len() == 0 {
        0
    } else {
        count_gaps(es.drop_last()) + if has_gap(es.last().native_prebuilds@) { 1nat } else { 0nat }
    }
}

fn gap_in(rs: &Vec<NativePrebuildRequirement>) -> (r: bool)
    ensures
        r == has_gap(rs@),
{
    let mut i: usize = 0;
    while i < rs.len()
        invariant
            i <= rs@.len(),
            forall|j: int|
                0 <= j < i ==> !(#[trigger] rs@[j].status != PrebuildResolveStatus::Configured
                    && rs@[j].status != PrebuildResolveStatus::Suggestable),
        decreases rs@.len() - i,
    {
        if rs[i].status != PrebuildResolveStatus::Configured && rs[i].status != PrebuildResolveStatus::Suggestable {
            return true;
        }
        i += 1;
    }
    false
}

/// Count what a plan's entries need and wrap them into a plan.
pub fn summarize_plan(entries: Vec<ExecPlanEntry>, root: Option<String>) -> (r: ExecPlan)
    ensures
        r.entries == entries,
        r.root == root,
        r.needs_execution_count == count_needs(entries@),
        r.would_execute_count == count_would(entries@),
        r.needs_review_count == count_review(entries@),
        r.needs_network_count == count_network(entries@),
        r.native_policy_gap_count == count_gaps(entries@),
        !r.executed,
{
    let mut n1: usize = 0;
    let mut n2: usize = 0;
    let mut n3: usize = 0;
    let mut n4: usize = 0;
    let mut n5: usize = 0;
    let mut i: usize = 0;
    let ghost es = entries@;
    assert(es.take(0) =~= Seq::<ExecPlanEntry>::empty());
    while i < entries.len()
        invariant
            i <= es.len(),
            es == entries@,
            n1 == count_needs(es.take(i as int)),
            n2 == count_would(es.take(i as int)),
            n3 == count_review(es.take(i as int)),
            n4 == count_network(es.take(i as int)),
            n5 == count_gaps(es.take(i as int)),
            n1 <= i && n2 <= i && n3 <= i && n4 <= i && n5 <= i,
        decreases es.len() - i,
    {
        assert(es.take(i + 1).drop_last() =~= es.take(i as int));
        let e = &entries[i];
        if e.needs_execution {
            n1 += 1;
        }
        if e.would_execute {
            n2 += 1;
        }
        if e.policy == PolicyReviewStatus::NeedsReview || e.policy == PolicyReviewStatus::PartialCoverage
            || e.policy == PolicyReviewStatus::MetadataMissing {
            n3 += 1;
        }
        if e.needs_network {
            n4 += 1;
        }
        if gap_in(&e.native_prebuilds) {
            n5 += 1;
        }
        i += 1;
    }
    assert(es.take(es.len() as int) =~= es);
    ExecPlan {
        root,
        entries,
        needs_execution_count: n1,
        would_execute_count: n2,
        needs_review_count: n3,
        needs_network_count: n4,
        native_policy_gap_count: n5,
        executed: false,
    }
}

/// A node is planned: not the root, and not a workspace member outside `node_modules/`.
pub open spec fn planned(n: PackageNode) -> bool {
    n.key@.len() != 0 && !(n.is_workspace && !crate::text::starts_with(n.key@, "node_modules/"@))
}

/// The planned nodes of a list, in order.
pub open spec fn planned_nodes(ns: Seq<PackageNode>) -> Seq<PackageNode>
    decreases ns.len(),
{
    if ns.len() == 0 {
        Seq::empty()
    } else if planned(ns.last()) {
        planned_nodes(ns.drop_last()).push(ns.last())
    } else {
        planned_nodes(ns.drop_last())
    }
}

/// `x` placed before the first node whose key sorts after its key.
pub open spec fn insert_by_key(s: Seq<PackageNode>, x: PackageNode) -> Seq<PackageNode>
    decreases s.len(),
{
    if s.len() == 0 {
        seq![x]
    } else if lex_lt(x.key@, s[0].key@) {
        seq![x] + s
    } else {
        seq![s[0]] + insert_by_key(s.skip(1), x)
    }
}

/// `s` ordered by key, nodes with equal keys in their original order.
pub open spec fn sort_by_key(s: Seq<PackageNode>) -> Seq<PackageNode>
    decreases s.len(),
{
    if s.len() == 0 {
        Seq::empty()
    } else {
        insert_by_key(sort_by_key(s.drop_last()), s.last())
    }
}

/// The nodes of a plan, in order: the planned nodes of `graph` by key.
pub open spec fn plan_nodes(graph: DependencyGraph) -> Seq<PackageNode> {
    sort_by_key(planned_nodes(crate::lockfile::node_list(graph.nodes)))
}

/// No key comes before an earlier one.
pub open spec fn keys_ascending(s: Seq<PackageNode>) -> bool {
    forall|i: int, j: int| 0 <= i < j < s.len() ==> !lex_lt(#[trigger] s[j].key@, #[trigger] s[i].key@)
}

/// Inserting at the first position whose key sorts after `x` is `insert_by_key`.
pub proof fn lemma_insert_by_key_at(s: Seq<PackageNode>, x: PackageNode, p: int)
    requires
        0 <= p <= s.len(),
        forall|q: int| 0 <= q < p ==> !lex_lt(x.key@, #[trigger] s[q].key@),
        p == s.len() || lex_lt(x.key@, s[p].key@),
    ensures
        insert_by_key(s, x) == s.insert(p, x),
    decreases p,
{
    if p == 0 {
        assert(s.insert(0, x) =~= seq![x] + s);
        if s.len() == 0 {
            assert(seq![x] + s =~= seq![x]);
        }
    } else {
        assert(!lex_lt(x.key@, s[0].key@));
        lemma_insert_by_key_at(s.skip(1), x, p - 1);
        assert(seq![s[0]] + s.skip(1).insert(p - 1, x) =~= s.insert(p, x));
    }
}

/// Inserting into an ascending sequence keeps it ascending.
pub proof fn lemma_insert_keeps_ascending(s: Seq<PackageNode>, x: PackageNode, p: int)
    requires
        keys_ascending(s),
        0 <= p <= s.len(),
        forall|q: int| 0 <= q < p ==> !lex_lt(x.key@, #[trigger] s[q].key@),
        p == s.len() || lex_lt(x.key@, s[p].key@),
    ensures
        keys_ascending(s.insert(p, x)),
{
    let t = s.insert(p, x);
    assert forall|i: int, j: int| 0 <= i < j < t.len() implies !lex_lt(#[trigger] t[j].key@, #[trigger] t[i].key@) by {
        if i < p && j < p {
            assert(t[i] == s[i] && t[j] == s[j]);
        } else if i < p && j == p {
            assert(t[i] == s[i] && t[j] == x);
        } else if i < p {
            assert(t[i] == s[i] && t[j] == s[j - 1]);
        } else if i == p {
            assert(t[i] == x && t[j] == s[j - 1]);
            if lex_lt(s[j - 1].key@, x.key@) {
                if j - 1 == p {
                    lemma_lex_asym(s[p].key@, x.key@);
                } else {
                    lemma_lex_trans(s[j - 1].key@, x.key@, s[p].key@);
                }
            }
        } else {
            assert(t[i] == s[i - 1] && t[j] == s[j - 1]);
        }
    }
}

/// A sorted sequence is ascending and as long as the original.
pub proof fn lemma_sort_by_key(s: Seq<PackageNode>)
    ensures
        keys_ascending(sort_by_key(s)),
        sort_by_key(s).len() == s.len(),
    decreases s.len(),
{
    if s.len() > 0 {
        let r = sort_by_key(s.drop_last());
        lemma_sort_by_key(s.drop_last());
        let x = s.last();
        let p = insert_pos(r, x);
        lemma_insert_by_key_at(r, x, p);
        lemma_insert_keeps_ascending(r, x, p);
    }
}

/// The first position whose key sorts after `x`, or the end.
pub open spec fn first_after(s: Seq<PackageNode>, x: PackageNode, from: int) -> int
    decreases s.len() - from,
{
    if from >= s.len() || from < 0 {
        s.len() as int
    } else if lex_lt(x.key@, s[from].key@) {
        from
    } else {
        first_after(s, x, from + 1)
    }
}

proof fn lemma_first_after(s: Seq<PackageNode>, x: PackageNode, from: int)
    requires
        0 <= from <= s.len(),
        forall|q: int| 0 <= q < from ==> !lex_lt(x.key@, #[trigger] s[q].key@),
    ensures
        from <= first_after(s, x, from) <= s.len(),
        forall|q: int| 0 <= q < first_after(s, x, from) ==> !lex_lt(x.key@, #[trigger] s[q].key@),
        first_after(s, x, from) == s.len() || lex_lt(x.key@, s[first_after(s, x, from)].key@),
    decreases s.len() - from,
{
    if from < s.len() && !lex_lt(x.key@, s[from].key@) {
        lemma_first_after(s, x, from + 1);
    }
}

proof fn insert_pos(s: Seq<PackageNode>, x: PackageNode) -> (p: int)
    ensures
        0 <= p <= s.len(),
        forall|q: int| 0 <= q < p ==> !lex_lt(x.key@, #[trigger] s[q].key@),
        p == s.len() || lex_lt(x.key@, s[p].key@),
{
    lemma_first_after(s, x, 0);
    first_after(s, x, 0)
}

/// The nodes a sequence of references points at.
pub open spec fn derefs(s: Seq<&PackageNode>) -> Seq<PackageNode> {
    s.map_values(|r: &PackageNode| *r)
}

/// The nodes `plan_entries` plans for, in key order.
fn planned_sorted(graph: &DependencyGraph) -> (r: Vec<&PackageNode>)
    ensures
        derefs(r@) == plan_nodes(*graph),
{
    let ghost ns = crate::lockfile::node_list(graph.nodes);
    let mut out: Vec<&PackageNode> = Vec::new();
    let mut i: usize = 0;
    assert(ns.take(0) =~= Seq::<PackageNode>::empty());
    assert(derefs(out@) =~= Seq::<PackageNode>::empty());
    while i < graph.nodes.len()
        invariant
            i <= ns.len(),
            ns == crate::lockfile::node_list(graph.nodes),
            derefs(out@) == sort_by_key(planned_nodes(ns.take(i as int))),
        decreases ns.len() - i,
    {
        let node = graph.nodes.value_at(i);
        assert(ns[i as int] == *node);
        assert(ns.take(i + 1).drop_last() =~= ns.take(i as int));
        let ghost prev = planned_nodes(ns.take(i as int));
        if !node.key.is_root() && !(node.is_workspace && !crate::text::str_starts_with(node.key.as_str(), "node_modules/")) {
            assert(planned_nodes(ns.take(i + 1)) == prev.push(*node));
            assert(planned_nodes(ns.take(i + 1)).drop_last() =~= prev);
            let ghost ov = derefs(out@);
            let xc = chars_of(node.key.as_str());
            let mut j: usize = 0;
            while j < out.len() && !(crate::textmap::lex_order(&xc, &chars_of(out[j].key.as_str())) < 0)
                invariant
                    j <= out@.len(),
                    ov == derefs(out@),
                    xc@ == node.key@,
                    forall|q: int| 0 <= q < j ==> !lex_lt(node.key@, #[trigger] ov[q].key@),
                decreases out@.len() - j,
            {
                j += 1;
            }
            proof {
                lemma_insert_by_key_at(ov, *node, j as int);
            }
            out.insert(j, node);
            assert(derefs(out@) =~= ov.insert(j as int, *node));
        } else {
            assert(planned_nodes(ns.take(i + 1)) == prev);
        }
        i += 1;
    }
    assert(ns.take(ns.len() as int) =~= ns);
    out
}

/// Lockfile-only entries of the planned nodes of `graph`, in key order.
pub fn plan_entries(graph: &DependencyGraph) -> (r: Vec<ExecPlanEntry>)
    ensures
        ({
            let ps = plan_nodes(*graph);
            &&& r@.len() == ps.len()
            &&& forall|i: int|
                0 <= i < ps.len() ==> (#[trigger] r@[i]).package_key@ == ps[i].key@ && opt_view(r@[i].name)
                    == opt_view(ps[i].name) && r@[i].model() == classified(ps[i])
                    && r@[i].discovered_output_candidates@.len() == 0 && r@[i].prebuild@.len() == 0
                    && r@[i].native_prebuilds@.len() == 0 && r@[i].allowed_outputs@.len() == 0
                    && r@[i].candidate_scripts.deep_view() == node_scripts(ps[i])
                    && r@[i].discovered_scripts@.len() == 0
        }),
{
    let nodes = planned_sorted(graph);
    let ghost ps = plan_nodes(*graph);
    let mut out: Vec<ExecPlanEntry> = Vec::new();
    let mut i: usize = 0;
    while i < nodes.len()
        invariant
            i <= nodes@.len(),
            derefs(nodes@) == ps,
            out@.len() == i,
            forall|j: int|
                0 <= j < i ==> (#[trigger] out@[j]).package_key@ == ps[j].key@ && opt_view(out@[j].name)
                    == opt_view(ps[j].name) && out@[j].model() == classified(ps[j])
                    && out@[j].discovered_output_candidates@.len() == 0 && out@[j].prebuild@.len() == 0
                    && out@[j].native_prebuilds@.len() == 0 && out@[j].allowed_outputs@.len() == 0
                    && out@[j].candidate_scripts.deep_view() == node_scripts(ps[j])
                    && out@[j].discovered_scripts@.len() == 0,
        decreases nodes@.len() - i,
    {
        assert(*nodes@[i as int] == ps[i as int]);
        out.push(classify_node(nodes[i]));
        i += 1;
    }
    out
}

/// Name of a node, empty when the lockfile gives none.
pub open spec fn node_name(n: PackageNode) -> Seq<char> {
    match opt_view(n.name) {
        Some(x) => x,
        None => Seq::empty(),
    }
}

/// `e` is the entry a plan holds for node `n`: lockfile-only without a
/// configuration; with one, after its prebuild fetches and allowlist apply.
pub open spec fn configured_entry(
    e: ExecPlanEntry,
    n: PackageNode,
    cfg: Option<&ExecutionConfig>,
    host: HostPlatform,
    abi: Seq<char>,
) -> bool {
    &&& e.package_key@ == n.key@
    &&& opt_view(e.name) == opt_view(n.name)
    &&& e.candidate_scripts.deep_view() == node_scripts(n)
    &&& e.discovered_scripts@.len() == 0
    &&& e.discovered_output_candidates@.len() == 0
    &&& e.native_prebuilds@.len() == 0
    &&& match cfg {
        None => e.model() == classified(n) && e.allowed_outputs@.len() == 0 && e.prebuild@.len() == 0,
        Some(c) => {
            let plans = plans_of(*c, fetches_named(c.prebuild.fetches@, node_name(n)), host, abi);
            &&& e.model() == policy_stage(prebuild_stage(classified(n), plans, *c), node_name(n), Seq::empty(), *c)
            &&& e.allowed_outputs.deep_view() == c.spec_outputs_for(node_name(n))
            &&& match plans {
                Ok(ps) => plan_views(e.prebuild@) == ps,
                Err(_) => e.prebuild@.len() == 0,
            }
        },
    }
}

/// Non-executing plan of `graph` from lockfile data and the configuration
/// (when given), for `host`/`abi`. Entries are in key order; nothing runs.
pub fn plan_execution_with_config(graph: &DependencyGraph, cfg: Option<&ExecutionConfig>, host: &HostPlatform, abi: &str) -> (r: ExecPlan)
    requires
        cfg matches Some(c) ==> c.declared_outputs.wf(),
    ensures
        ({
            let ps = plan_nodes(*graph);
            &&& r.entries@.len() == ps.len()
            &&& forall|i: int| 0 <= i < ps.len() ==> configured_entry(#[trigger] r.entries@[i], ps[i], cfg, *host, abi@)
            &&& forall|i: int, j: int|
                0 <= i < j < r.entries@.len() ==> !lex_lt(
                    #[trigger] r.entries@[j].package_key@,
                    #[trigger] r.entries@[i].package_key@,
                )
            &&& r.root.is_none()
            &&& r.needs_execution_count == count_needs(r.entries@)
            &&& r.would_execute_count == count_would(r.entries@)
            &&& r.needs_review_count == count_review(r.entries@)
            &&& r.needs_network_count == count_network(r.entries@)
            &&& r.native_policy_gap_count == count_gaps(r.entries@)
            &&& !r.executed
        }),
{
    let mut entries = plan_entries(graph);
    let ghost ps = plan_nodes(*graph);
    if let Some(c) = cfg {
        let ghost e0 = entries@;
        let mut src = entries;
        let total = src.len();
        let mut out: Vec<ExecPlanEntry> = Vec::new();
        let mut k: usize = 0;
        assert(src@ =~= e0.skip(0));
        while src.len() > 0
            invariant
                k <= e0.len(),
                e0.len() == total,
                e0.len() == ps.len(),
                src@ == e0.skip(k as int),
                out@.len() == k,
                c.declared_outputs.wf(),
                cfg == Some(c),
                forall|j: int| 0 <= j < e0.len() ==> configured_entry(#[trigger] e0[j], ps[j], None, *host, abi@),
                forall|j: int| 0 <= j < k ==> configured_entry(#[trigger] out@[j], ps[j], cfg, *host, abi@),
            decreases src@.len(),
        {
            let ghost sv = src@;
            let mut e = src.remove(0);
            proof {
                sv.remove_ensures(0);
                assert(src@ =~= e0.skip(k + 1));
                assert(e == e0[k as int]);
                assert(configured_entry(e0[k as int], ps[k as int], None, *host, abi@));
                assert(e.discovered_output_candidates@ =~= Seq::<OutputCandidate>::empty());
                assert(entry_name(e) == node_name(ps[k as int]));
            }
            apply_config_policy(&mut e, c, host, abi);
            proof {
                assert(configured_entry(e, ps[k as int], cfg, *host, abi@));
            }
            let ghost prev = out@;
            out.push(e);
            assert(out@ == prev.push(e));
            k += 1;
        }
        entries = out;
    } else {
        assert forall|j: int| 0 <= j < entries@.len() implies configured_entry(
            #[trigger] entries@[j],
            ps[j],
            cfg,
            *host,
            abi@,
        ) by {}
    }
    proof {
        lemma_sort_by_key(planned_nodes(crate::lockfile::node_list(graph.nodes)));
        assert forall|i: int, j: int| 0 <= i < j < entries@.len() implies !lex_lt(
            #[trigger] entries@[j].package_key@,
            #[trigger] entries@[i].package_key@,
        ) by {
            assert(configured_entry(entries@[i], ps[i], cfg, *host, abi@));
            assert(configured_entry(entries@[j], ps[j], cfg, *host, abi@));
        }
    }
    summarize_plan(entries, None)
}

/// Entries runnable under current policy: would execute, allowlisted by
/// name, with declared outputs.
pub fn runnable_entries<'a>(plan: &'a ExecPlan, cfg: &ExecutionConfig) -> (r: Vec<&'a ExecPlanEntry>)
    ensures
        r@.map_values(|e: &ExecPlanEntry| *e) == runnable(plan.entries@, *cfg),
{
    let ghost es = plan.entries@;
    let mut out: Vec<&ExecPlanEntry> = Vec::new();
    let mut i: usize = 0;
    assert(out@.map_values(|e: &ExecPlanEntry| *e) =~= runnable(es.take(0), *cfg));
    while i < plan.entries.len()
        invariant
            i <= es.len(),
            es == plan.entries@,
            out@.map_values(|e: &ExecPlanEntry| *e) == runnable(es.take(i as int), *cfg),
        decreases es.len() - i,
    {
        let e = &plan.entries[i];
        assert(es.take(i + 1).drop_last() =~= es.take(i as int));
        let ok = e.would_execute && match &e.name {
            Some(n) => cfg.package_allowed(n.as_str()),
            None => false,
        } && e.allowed_outputs.len() > 0;
        if ok {
            let ghost before = out@;
            out.push(e);
            assert(out@.map_values(|x: &ExecPlanEntry| *x) =~= before.map_values(|x: &ExecPlanEntry| *x).push(*e));
        }
        i += 1;
    }
    assert(es.take(es.len() as int) =~= es);
    out
}

/// An entry may run under the configuration.
pub open spec fn may_run(e: ExecPlanEntry, cfg: ExecutionConfig) -> bool {
    e.would_execute && (match opt_view(e.name) {
        Some(n) => list_has(cfg.allow_packages.deep_view(), n),
        None => false,
    }) && e.allowed_outputs@.len() > 0
}

/// The entries that may run, in order.
pub open spec fn runnable(es: Seq<ExecPlanEntry>, cfg: ExecutionConfig) -> Seq<ExecPlanEntry>
    decreases es.len(),
{
    if es.len() == 0 {
        Seq::empty()
    } else if may_run(es.last(), cfg) {
        runnable(es.drop_last(), cfg).push(es.last())
    } else {
        runnable(es.drop_last(), cfg)
    }
}

/// Dual gate: after the configuration is applied, an entry would execute
/// only if execution is enabled, the package is allowlisted, it has declared
/// outputs, needs execution, and is not blocked.
pub proof fn lemma_would_execute_needs_gate(m: EntryModel, name: Seq<char>, cs: Seq<OutputCandidate>, cfg: ExecutionConfig)
    ensures
        policy_stage(m, name, cs, cfg).would_execute ==> cfg.enabled && list_has(
            cfg.allow_packages.deep_view(),
            name,
        ) && cfg.spec_outputs_for(name).len() > 0 && m.needs_execution && m.class
            != ExecNeedClass::UnsupportedUnsafe && policy_stage(m, name, cs, cfg).policy
            != PolicyReviewStatus::BlockedUnsafe,
{
}

/// A planned entry would execute only under a configuration that enables
/// execution and allowlists the package, when the entry lists declared
/// outputs, needs execution, and is neither unsafe nor blocked.
pub proof fn lemma_planned_entry_gate(
    e: ExecPlanEntry,
    n: PackageNode,
    cfg: Option<&ExecutionConfig>,
    host: HostPlatform,
    abi: Seq<char>,
)
    requires
        configured_entry(e, n, cfg, host, abi),
    ensures
        e.would_execute ==> (cfg matches Some(c) && c.enabled && list_has(c.allow_packages.deep_view(), node_name(n))),
        e.would_execute ==> e.allowed_outputs@.len() > 0 && e.needs_execution && e.class
            != ExecNeedClass::UnsupportedUnsafe && e.policy != PolicyReviewStatus::BlockedUnsafe,
{
    match cfg {
        None => {},
        Some(c) => {
            let plans = plans_of(*c, fetches_named(c.prebuild.fetches@, node_name(n)), host, abi);
            let m = prebuild_stage(classified(n), plans, *c);
            lemma_would_execute_needs_gate(m, node_name(n), Seq::empty(), *c);
            assert(e.allowed_outputs@.len() == e.allowed_outputs.deep_view().len());
        },
    }
}

/// Without a configuration nothing would execute.
pub proof fn lemma_unconfigured_never_runs(m: EntryModel)
    ensures
        !unconfigured(m).would_execute,
{
}

} // verus!
