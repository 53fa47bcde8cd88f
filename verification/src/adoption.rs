//! Adoption readiness: a short verdict and the next steps a developer must
//! take, computed from a dry-run execution plan and the lockfile audits.
//! Nothing is invented (no SRI, URLs, outputs or permissions) and nothing is
//! enabled: the configuration is only read.
use vstd::prelude::*;
use crate::audit::{
    count_missing_required, count_rejected, missing_peer_counts, peer_findings, platform_counts,
};
use crate::config::ExecutionConfig;
use crate::discovery::{debug_list, debug_names, ExecNeedClass, OutputCandidate};
use crate::lockfile::{node_list, DependencyGraph};
use crate::plan::{ExecPlan, ExecPlanEntry};
use crate::prebuild::{pattern_debug, pattern_text, HostPlatform, NativePrebuildRequirement, PrebuildResolveStatus};
use crate::text::{chars_of, decimal, decimal_string, extend_str, opt_view, own, string_of};

verus! {

/// High-level readiness of a project.
#[derive(Debug, Clone, Copy, PartialEq, Eq, Structural)]
pub enum AdoptionVerdict {
    /// Extraction alone gives a complete tree: plain `weave switch` is enough.
    ExtractionReady,
    /// Switch materializes tarballs, but some packages stay incomplete until
    /// reviewed execution/prebuild policy is added.
    PartialNeedsPolicy,
    /// Hard blockers (peers, platform, unsafe packages) prevent a correct env.
    Blocked,
}

/// One concrete next action.
#[derive(Debug)]
pub struct AdoptionAction {
    /// Short command or config step.
    pub step: String,
    /// Why this step is required.
    pub why: String,
}

/// A package gap that blocks completeness (never auto-fixed).
#[derive(Debug)]
pub struct AdoptionPackageGap {
    /// Package name when known, else its key.
    pub package: String,
    /// Classification label.
    pub class: String,
    /// What was detected.
    pub issue: String,
    /// What the human must do.
    pub user_must: String,
}

/// Project adoption assessment.
#[derive(Debug)]
pub struct AdoptionAssessment {
    /// Overall verdict.
    pub verdict: AdoptionVerdict,
    /// One-line summary.
    pub summary: String,
    /// Ordered next actions.
    pub next_actions: Vec<AdoptionAction>,
    /// Packages needing attention.
    pub gaps: Vec<AdoptionPackageGap>,
    /// Packages that are extraction-only.
    pub extraction_only_count: usize,
    /// Packages needing opt-in execution.
    pub needs_execution_count: usize,
    /// Packages blocked as unsupported/unsafe.
    pub blocked_count: usize,
    /// Packages with unresolved native prebuild policy.
    pub native_policy_gap_count: usize,
    /// Whether any execution configuration is required for completeness.
    pub execution_config_required: bool,
    /// Always false: an assessment executes nothing.
    pub executed: bool,
}

impl AdoptionAction {
    /// The action as plain values.
    pub open spec fn model(&self) -> (Seq<char>, Seq<char>) {
        (self.step@, self.why@)
    }
}

impl AdoptionPackageGap {
    /// The gap as plain values.
    pub open spec fn model(&self) -> (Seq<char>, Seq<char>, Seq<char>, Seq<char>) {
        (self.package@, self.class@, self.issue@, self.user_must@)
    }
}

/// Action views.
pub open spec fn action_models(s: Seq<AdoptionAction>) -> Seq<(Seq<char>, Seq<char>)> {
    s.map_values(|a: AdoptionAction| a.model())
}

/// Gap views.
pub open spec fn gap_models(s: Seq<AdoptionPackageGap>) -> Seq<(Seq<char>, Seq<char>, Seq<char>, Seq<char>)> {
    s.map_values(|g: AdoptionPackageGap| g.model())
}

// ---------------------------------------------------------------------------
// Gaps
// ---------------------------------------------------------------------------

/// `Debug` rendering of a class.
pub open spec fn class_text(c: ExecNeedClass) -> Seq<char> {
    match c {
        ExecNeedClass::ExtractionOnly => "ExtractionOnly"@,
        ExecNeedClass::GeneratedFiles => "GeneratedFiles"@,
        ExecNeedClass::NativeBuild => "NativeBuild"@,
        ExecNeedClass::RuntimeInstall => "RuntimeInstall"@,
        ExecNeedClass::UnsupportedUnsafe => "UnsupportedUnsafe"@,
    }
}

/// `Debug` rendering of a class.
pub fn class_debug(c: ExecNeedClass) -> (r: &'static str)
    ensures
        r@ == class_text(c),
{
    match c {
        ExecNeedClass::ExtractionOnly => "ExtractionOnly",
        ExecNeedClass::GeneratedFiles => "GeneratedFiles",
        ExecNeedClass::NativeBuild => "NativeBuild",
        ExecNeedClass::RuntimeInstall => "RuntimeInstall",
        ExecNeedClass::UnsupportedUnsafe => "UnsupportedUnsafe",
    }
}

/// An entry's name, else its key.
pub open spec fn label(e: ExecPlanEntry) -> Seq<char> {
    match opt_view(e.name) {
        Some(n) => n,
        None => e.package_key@,
    }
}

/// A prebuild status that neither configuration nor a draft settles.
pub open spec fn open_status(s: PrebuildResolveStatus) -> bool {
    !(s is Configured || s is Suggestable)
}

/// Index of the first requirement with an open status at or after `i`, or the length.
pub open spec fn first_open_from(rs: Seq<NativePrebuildRequirement>, i: int) -> int
    decreases rs.len() - i,
{
    if i < 0 || i >= rs.len() {
        rs.len() as int
    } else if open_status(rs[i].status) {
        i
    } else {
        first_open_from(rs, i + 1)
    }
}

pub open spec fn unsafe_must() -> Seq<char> {
    "Do not allowlist this package. Replace it, vendor a safe build, or keep it out of Weave-managed trees — Weave will not grant open network or execute unsafe install scripts."@
}

pub open spec fn integrity_must() -> Seq<char> {
    "Verify the artifact yourself, then add an explicit [[execution.prebuild.fetches]] entry with HTTPS url, SRI integrity, and sealed relative output. Weave will not invent SRI. See docs/native.md."@
}

pub open spec fn tokens_must() -> Seq<char> {
    "Resolve or hardcode the concrete URL/output in execution.prebuild.fetches after review — do not rely on install scripts (they get no network)."@
}

pub open spec fn opaque_must() -> Seq<char> {
    "Declare url + integrity + output manually in execution.prebuild.fetches if you need the binary under Weave; otherwise rebuild outside Weave and treat the result as external. Weave will not guess dynamic download URLs."@
}

pub open spec fn unsafe_download_must() -> Seq<char> {
    "Refuse this download path (HTTP/unsafe). Use HTTPS + allowlisted host + SRI only — never enable open networking for lifecycle scripts."@
}

pub open spec fn draft_issue() -> Seq<char> {
    "concrete HTTPS + output + SRI found in metadata (reviewable draft)"@
}

pub open spec fn draft_must() -> Seq<char> {
    "Run `weave exec suggest`, review the TOML draft, merge only after verifying the artifact, set profile=prebuild-fetch if needed, then enable execution + `weave switch --with-exec`. Never auto-approve."@
}

pub open spec fn outputs_must() -> Seq<char> {
    "Run `weave exec suggest`, review allow_packages + declared_outputs, enable execution only after review, then `weave switch --with-exec`. Plain switch stays execution-free."@
}

pub open spec fn manual_outputs_must() -> Seq<char> {
    "Package needs generated files but Weave could not establish exact safe output paths from metadata. Declare exact relative outputs manually in .weave/config.toml after inspection — Weave will not invent paths."@
}

/// Issue and required action for a requirement with an open status.
pub open spec fn native_gap_texts(r: NativePrebuildRequirement) -> (Seq<char>, Seq<char>) {
    match r.status {
        PrebuildResolveStatus::NeedsIntegrity => (
            "native download pattern "@ + pattern_text(r.pattern)
                + "; URL/output known but integrity missing"@,
            integrity_must(),
        ),
        PrebuildResolveStatus::UnresolvedTokens => (
            "native URL template still has tokens "@ + debug_list(r.unresolved_tokens.deep_view())
                + ": "@ + r.reason@,
            tokens_must(),
        ),
        PrebuildResolveStatus::Opaque => (r.reason@, opaque_must()),
        _ => (r.reason@, unsafe_download_must()),
    }
}

/// Whether any requirement is a reviewable draft.
pub open spec fn any_suggestable(rs: Seq<NativePrebuildRequirement>) -> bool {
    exists|i: int| 0 <= i < rs.len() && (#[trigger] rs[i]).status is Suggestable
}

/// Whether any candidate output passed the safety checks.
pub open spec fn any_safe(cs: Seq<OutputCandidate>) -> bool {
    exists|i: int| 0 <= i < cs.len() && (#[trigger] cs[i]).safe
}

/// The gap an entry reports, if any.
pub open spec fn gap_of(e: ExecPlanEntry) -> Option<(Seq<char>, Seq<char>, Seq<char>, Seq<char>)> {
    let rs = e.native_prebuilds@;
    if e.class is UnsupportedUnsafe {
        Some((label(e), "unsupported-unsafe"@, e.reason@, unsafe_must()))
    } else if !e.needs_execution {
        None
    } else if first_open_from(rs, 0) < rs.len() {
        let t = native_gap_texts(rs[first_open_from(rs, 0)]);
        Some((label(e), class_text(e.class), t.0, t.1))
    } else if any_suggestable(rs) {
        Some((label(e), class_text(e.class), draft_issue(), draft_must()))
    } else {
        Some(
            (
                label(e),
                class_text(e.class),
                e.reason@,
                if any_safe(e.discovered_output_candidates@) {
                    outputs_must()
                } else {
                    manual_outputs_must()
                },
            ),
        )
    }
}

/// Gaps of all entries, in plan order.
pub open spec fn gaps_of(es: Seq<ExecPlanEntry>) -> Seq<(Seq<char>, Seq<char>, Seq<char>, Seq<char>)>
    decreases es.len(),
{
    if es.len() == 0 {
        Seq::empty()
    } else {
        match gap_of(es.last()) {
            Some(g) => gaps_of(es.drop_last()).push(g),
            None => gaps_of(es.drop_last()),
        }
    }
}

fn gap(package: String, class: &str, issue: String, user_must: &str) -> (r: AdoptionPackageGap)
    ensures
        r.model() == (package@, class@, issue@, user_must@),
{
    AdoptionPackageGap { package, class: own(class), issue, user_must: own(user_must) }
}

/// The gap an entry reports, if any.
fn gap_for(e: &ExecPlanEntry) -> (r: Option<AdoptionPackageGap>)
    ensures
        match (r, gap_of(*e)) {
            (Some(g), Some(m)) => g.model() == m,
            (None, None) => true,
            _ => false,
        },
{
    let name = match &e.name {
        Some(n) => own(n.as_str()),
        None => own(e.package_key.as_str()),
    };
    if e.class == ExecNeedClass::UnsupportedUnsafe {
        return Some(
            gap(
                name,
                "unsupported-unsafe",
                own(e.reason.as_str()),
                "Do not allowlist this package. Replace it, vendor a safe build, or keep it out of Weave-managed trees — Weave will not grant open network or execute unsafe install scripts.",
            ),
        );
    }
    if !e.needs_execution {
        return None;
    }
    let class = class_debug(e.class);
    let rs = &e.native_prebuilds;
    let mut i: usize = 0;
    while i < rs.len()
        invariant
            !(e.class is UnsupportedUnsafe),
            e.needs_execution,
            name@ == label(*e),
            class@ == class_text(e.class),
            rs == &e.native_prebuilds,
            i <= rs@.len(),
            first_open_from(rs@, 0) == first_open_from(rs@, i as int),
        decreases rs@.len() - i,
    {
        let st = rs[i].status;
        if !(st == PrebuildResolveStatus::Configured || st == PrebuildResolveStatus::Suggestable) {
            let np = &rs[i];
            assert(first_open_from(rs@, i as int) == i);
            let (issue, must) = match np.status {
                PrebuildResolveStatus::NeedsIntegrity => {
                    let mut m = chars_of("native download pattern ");
                    extend_str(&mut m, pattern_debug(np.pattern));
                    extend_str(&mut m, "; URL/output known but integrity missing");
                    (
                        string_of(&m),
                        "Verify the artifact yourself, then add an explicit [[execution.prebuild.fetches]] entry with HTTPS url, SRI integrity, and sealed relative output. Weave will not invent SRI. See docs/native.md.",
                    )
                },
                PrebuildResolveStatus::UnresolvedTokens => {
                    let mut m = chars_of("native URL template still has tokens ");
                    extend_str(&mut m, debug_names(&np.unresolved_tokens).as_str());
                    extend_str(&mut m, ": ");
                    extend_str(&mut m, np.reason.as_str());
                    (
                        string_of(&m),
                        "Resolve or hardcode the concrete URL/output in execution.prebuild.fetches after review — do not rely on install scripts (they get no network).",
                    )
                },
                PrebuildResolveStatus::Opaque => (
                    own(np.reason.as_str()),
                    "Declare url + integrity + output manually in execution.prebuild.fetches if you need the binary under Weave; otherwise rebuild outside Weave and treat the result as external. Weave will not guess dynamic download URLs.",
                ),
                _ => (
                    own(np.reason.as_str()),
                    "Refuse this download path (HTTP/unsafe). Use HTTPS + allowlisted host + SRI only — never enable open networking for lifecycle scripts.",
                ),
            };
            assert((issue@, must@) == native_gap_texts(rs@[i as int]));
            return Some(gap(name, class, issue, must));
        }
        i += 1;
    }
    assert(first_open_from(rs@, 0) == rs@.len());
    let mut j: usize = 0;
    while j < rs.len()
        invariant
            !(e.class is UnsupportedUnsafe),
            e.needs_execution,
            name@ == label(*e),
            class@ == class_text(e.class),
            rs == &e.native_prebuilds,
            first_open_from(rs@, 0) == rs@.len(),
            j <= rs@.len(),
            forall|k: int| 0 <= k < j ==> !((#[trigger] rs@[k]).status is Suggestable),
        decreases rs@.len() - j,
    {
        if rs[j].status == PrebuildResolveStatus::Suggestable {
            assert(rs@[j as int].status is Suggestable);
            return Some(
                gap(
                    name,
                    class,
                    own("concrete HTTPS + output + SRI found in metadata (reviewable draft)"),
                    "Run `weave exec suggest`, review the TOML draft, merge only after verifying the artifact, set profile=prebuild-fetch if needed, then enable execution + `weave switch --with-exec`. Never auto-approve.",
                ),
            );
        }
        j += 1;
    }
    assert(!any_suggestable(rs@));
    let cs = &e.discovered_output_candidates;
    let mut k: usize = 0;
    let mut safe = false;
    while k < cs.len()
        invariant
            cs == &e.discovered_output_candidates,
            k <= cs@.len(),
            safe == exists|q: int| 0 <= q < k && (#[trigger] cs@[q]).safe,
        decreases cs@.len() - k,
    {
        if cs[k].safe {
            assert(cs@[k as int].safe);
            safe = true;
        }
        k += 1;
    }
    let must = if safe {
        "Run `weave exec suggest`, review allow_packages + declared_outputs, enable execution only after review, then `weave switch --with-exec`. Plain switch stays execution-free."
    } else {
        "Package needs generated files but Weave could not establish exact safe output paths from metadata. Declare exact relative outputs manually in .weave/config.toml after inspection — Weave will not invent paths."
    };
    Some(gap(name, class, own(e.reason.as_str()), must))
}

// ---------------------------------------------------------------------------
// Counts, verdict and summary
// ---------------------------------------------------------------------------

/// Entries that need nothing beyond extraction.
pub open spec fn count_extraction_only(es: Seq<ExecPlanEntry>) -> nat
    decreases es.len(),
{
    if es.len() == 0 {
        0
    } else {
        count_extraction_only(es.drop_last()) + if es.last().class is ExtractionOnly
            && !es.last().needs_execution {
            1nat
        } else {
            0nat
        }
    }
}

/// Entries classified unsupported/unsafe.
pub open spec fn count_unsafe(es: Seq<ExecPlanEntry>) -> nat
    decreases es.len(),
{
    if es.len() == 0 {
        0
    } else {
        count_unsafe(es.drop_last()) + if es.last().class is UnsupportedUnsafe {
            1nat
        } else {
            0nat
        }
    }
}

/// Required peers the lockfile leaves unsatisfied.
pub open spec fn graph_missing_peers(g: DependencyGraph) -> nat {
    count_missing_required(peer_findings(node_list(g.nodes), g.nodes))
}

/// Required packages incompatible with the host.
pub open spec fn graph_rejected(g: DependencyGraph, host: HostPlatform) -> nat {
    count_rejected(node_list(g.nodes), host)
}

/// Blocked when a required peer is missing, a required package does not fit
/// the host or a package is unsupported/unsafe; otherwise extraction-ready
/// when nothing needs execution, else partial.
pub open spec fn verdict_of(missing_peers: nat, rejected: nat, blocked: nat, needs_execution: nat) -> AdoptionVerdict {
    if missing_peers > 0 || rejected > 0 || blocked > 0 {
        AdoptionVerdict::Blocked
    } else if needs_execution == 0 {
        AdoptionVerdict::ExtractionReady
    } else {
        AdoptionVerdict::PartialNeedsPolicy
    }
}

/// `parts` joined with `sep`.
pub open spec fn join(parts: Seq<Seq<char>>, sep: Seq<char>) -> Seq<char>
    decreases parts.len(),
{
    if parts.len() == 0 {
        Seq::empty()
    } else if parts.len() == 1 {
        parts[0]
    } else {
        join(parts.drop_last(), sep) + sep + parts.last()
    }
}

/// The blockers named in a blocked summary.
pub open spec fn blocked_parts(missing_peers: nat, rejected: nat, blocked: nat) -> Seq<Seq<char>> {
    (if missing_peers > 0 {
        seq![decimal(missing_peers) + " unsatisfied required peer(s)"@]
    } else {
        Seq::empty()
    }) + (if rejected > 0 {
        seq![decimal(rejected) + " required package(s) incompatible with host platform"@]
    } else {
        Seq::empty()
    }) + (if blocked > 0 {
        seq![decimal(blocked) + " unsupported/unsafe package(s) that Weave will not execute"@]
    } else {
        Seq::empty()
    })
}

/// The one-line summary.
pub open spec fn summary_of(
    missing_peers: nat,
    rejected: nat,
    blocked: nat,
    extraction_only: nat,
    needs_execution: nat,
    gaps: nat,
) -> Seq<char> {
    match verdict_of(missing_peers, rejected, blocked, needs_execution) {
        AdoptionVerdict::Blocked => "Adoption blocked: "@ + join(
            blocked_parts(missing_peers, rejected, blocked),
            "; "@,
        ) + ". Fix lockfile/deps before relying on Weave for a complete env."@,
        AdoptionVerdict::ExtractionReady => "Extraction-ready: "@ + decimal(extraction_only)
            + " package(s) need only tarball materialization. No execution configuration required — plain `weave switch` is the complete path."@,
        AdoptionVerdict::PartialNeedsPolicy => "Partial: plain `weave switch` materializes tarballs, but "@
            + decimal(needs_execution)
            + " package(s) need reviewed opt-in policy for completeness ("@ + decimal(gaps)
            + " native policy gap(s)). Environment may run without them if unused at runtime."@,
    }
}

/// The next actions for a verdict, before the enabled-config reminder.
pub open spec fn base_actions(
    v: AdoptionVerdict,
    missing_peers: nat,
    rejected: nat,
    blocked: nat,
    gaps: nat,
    host: HostPlatform,
) -> Seq<(Seq<char>, Seq<char>)> {
    match v {
        AdoptionVerdict::ExtractionReady => seq![
            ("weave init && weave switch"@, "Initialize Weave metadata and materialize node_modules from the lockfile (offline after artifacts are in the CAS)."@),
            ("weave doctor"@, "Confirm store, peers, and that no unexpected lifecycle/native gaps appear."@),
            ("node <your-entrypoint>"@, "Run the app against the activated tree — no [execution] block needed."@),
        ],
        AdoptionVerdict::PartialNeedsPolicy => seq![
            ("weave switch"@, "Materialize extraction-only packages now. Plain switch never executes and never opens network for install scripts."@),
            ("weave exec plan"@, "See which packages are incomplete and why (native gaps, missing outputs)."@),
            ("weave exec suggest"@, "Emit reviewable allowlist/prebuild drafts only when safe metadata exists. Suggestions never set enabled=true."@),
        ] + (if gaps > 0 {
            seq![("add execution.prebuild.fetches (manual SRI)"@, "Packages lacking static integrity cannot be auto-suggested. Verify artifacts offline, then declare HTTPS url + SRI + output yourself. Docs: docs/native.md / docs/adoption.md."@)]
        } else {
            Seq::empty()
        }) + seq![
            ("enable + weave switch --with-exec"@, "Only after reviewing config: set execution.enabled=true (dual gate). Env vars cannot enable execution."@),
        ],
        AdoptionVerdict::Blocked => (if missing_peers > 0 {
            seq![("fix package-lock.json peers"@, "Weave does not auto-install missing required peerDependencies — add them to the lockfile with npm/yarn and re-lock."@)]
        } else {
            Seq::empty()
        }) + (if rejected > 0 {
            seq![("replace platform-incompatible required deps"@, "Required packages reject host "@ + host.os@ + "/"@ + host.cpu@ + "."@)]
        } else {
            Seq::empty()
        }) + (if blocked > 0 {
            seq![("remove or replace unsafe install-script packages"@, "Weave fails closed on packages classified unsupported/unsafe rather than granting open network to lifecycle scripts."@)]
        } else {
            Seq::empty()
        }) + seq![("weave doctor && weave exec plan"@, "Re-check after lockfile/dependency fixes."@)],
    }
}

/// The next actions: with execution already enabled, a partial verdict first
/// reminds that `--with-exec` is still required.
pub open spec fn actions_of(
    v: AdoptionVerdict,
    missing_peers: nat,
    rejected: nat,
    blocked: nat,
    gaps: nat,
    host: HostPlatform,
    enabled: bool,
) -> Seq<(Seq<char>, Seq<char>)> {
    if enabled && v is PartialNeedsPolicy {
        seq![("weave switch --with-exec"@, "execution.enabled is already true — dual gate still requires --with-exec for sandboxed apply."@)]
            + base_actions(v, missing_peers, rejected, blocked, gaps, host)
    } else {
        base_actions(v, missing_peers, rejected, blocked, gaps, host)
    }
}

fn action(step: &str, why: &str) -> (r: AdoptionAction)
    ensures
        r.model() == (step@, why@),
{
    AdoptionAction { step: own(step), why: own(why) }
}

fn push_action(v: &mut Vec<AdoptionAction>, step: &str, why: &str)
    ensures
        action_models(final(v)@) == action_models(old(v)@).push((step@, why@)),
{
    let a = action(step, why);
    let ghost before = v@;
    v.push(a);
    assert(action_models(v@) =~= action_models(before).push((step@, why@)));
}

// ---------------------------------------------------------------------------
// Assessment
// ---------------------------------------------------------------------------

/// Assess adoption readiness of `graph` from its dry-run `plan`, the
/// configuration (when loaded) and the host platform. Never enables anything.
#[verifier::rlimit(80)]
pub fn assess_adoption(
    graph: &DependencyGraph,
    plan: &ExecPlan,
    cfg: Option<&ExecutionConfig>,
    host: &HostPlatform,
) -> (r: AdoptionAssessment)
    requires
        graph.wf(),
    ensures
        ({
            let mp = graph_missing_peers(*graph);
            let rj = graph_rejected(*graph, *host);
            let bc = count_unsafe(plan.entries@);
            let eo = count_extraction_only(plan.entries@);
            let ne = plan.needs_execution_count as nat;
            let ng = plan.native_policy_gap_count as nat;
            let enabled = cfg matches Some(c) && c.enabled;
            &&& r.verdict == verdict_of(mp, rj, bc, ne)
            &&& r.summary@ == summary_of(mp, rj, bc, eo, ne, ng)
            &&& action_models(r.next_actions@) == actions_of(r.verdict, mp, rj, bc, ng, *host, enabled)
            &&& gap_models(r.gaps@) == gaps_of(plan.entries@)
            &&& r.extraction_only_count == eo
            &&& r.needs_execution_count == ne
            &&& r.blocked_count == bc
            &&& r.native_policy_gap_count == ng
            &&& r.execution_config_required == (ne > 0)
            &&& !r.executed
        }),
{
    let peers = graph.audit_peers();
    let (missing_required_peers, _missing_optional) = missing_peer_counts(&peers);
    let (reject_platform, _skipped) = platform_counts(graph, host);
    let ghost es = plan.entries@;
    let mut extraction_only_count: usize = 0;
    let mut blocked_count: usize = 0;
    let mut gaps: Vec<AdoptionPackageGap> = Vec::new();
    let mut i: usize = 0;
    assert(es.take(0) =~= Seq::<ExecPlanEntry>::empty());
    assert(gap_models(gaps@) =~= Seq::empty());
    while i < plan.entries.len()
        invariant
            i <= es.len(),
            es == plan.entries@,
            extraction_only_count == count_extraction_only(es.take(i as int)),
            blocked_count == count_unsafe(es.take(i as int)),
            extraction_only_count <= i,
            blocked_count <= i,
            gap_models(gaps@) == gaps_of(es.take(i as int)),
        decreases es.len() - i,
    {
        let e = &plan.entries[i];
        assert(es.take(i + 1).drop_last() =~= es.take(i as int));
        assert(es.take(i + 1).last() == *e);
        if e.class == ExecNeedClass::ExtractionOnly && !e.needs_execution {
            extraction_only_count += 1;
        }
        if e.class == ExecNeedClass::UnsupportedUnsafe {
            blocked_count += 1;
        }
        match gap_for(e) {
            Some(g) => {
                let ghost before = gaps@;
                gaps.push(g);
                assert(gap_models(gaps@) =~= gap_models(before).push(g.model()));
            },
            None => {},
        }
        i += 1;
    }
    assert(es.take(es.len() as int) =~= es);
    let needs_execution_count = plan.needs_execution_count;
    let native_policy_gap_count = plan.native_policy_gap_count;
    let hard_block = missing_required_peers > 0 || reject_platform > 0 || blocked_count > 0;
    let execution_config_required = needs_execution_count > 0;
    let ghost mp = missing_required_peers as nat;
    let ghost rj = reject_platform as nat;
    let ghost bc = blocked_count as nat;
    let (verdict, summary) = if hard_block {
        let ghost parts = blocked_parts(mp, rj, bc);
        let mut m = chars_of("Adoption blocked: ");
        let ghost start = m@;
        let mut first = true;
        let ghost done: Seq<Seq<char>> = Seq::empty();
        if missing_required_peers > 0 {
            extend_str(&mut m, decimal_string(missing_required_peers as u64).as_str());
            extend_str(&mut m, " unsatisfied required peer(s)");
            first = false;
            proof {
                done = done.push(decimal(mp) + " unsatisfied required peer(s)"@);
                assert(join(done, "; "@) =~= decimal(mp) + " unsatisfied required peer(s)"@);
            }
        }
        assert(m@ =~= start + join(done, "; "@));
        assert(first == (done.len() == 0));
        if reject_platform > 0 {
            let ghost p = decimal(rj) + " required package(s) incompatible with host platform"@;
            if !first {
                extend_str(&mut m, "; ");
            }
            extend_str(&mut m, decimal_string(reject_platform as u64).as_str());
            extend_str(&mut m, " required package(s) incompatible with host platform");
            first = false;
            proof {
                let d0 = done;
                done = done.push(p);
                assert(done.drop_last() =~= d0);
                if d0.len() == 0 {
                    assert(join(done, "; "@) =~= p);
                }
            }
        }
        assert(m@ =~= start + join(done, "; "@));
        assert(first == (done.len() == 0));
        if blocked_count > 0 {
            let ghost p = decimal(bc) + " unsupported/unsafe package(s) that Weave will not execute"@;
            if !first {
                extend_str(&mut m, "; ");
            }
            extend_str(&mut m, decimal_string(blocked_count as u64).as_str());
            extend_str(&mut m, " unsupported/unsafe package(s) that Weave will not execute");
            proof {
                let d0 = done;
                done = done.push(p);
                assert(done.drop_last() =~= d0);
                if d0.len() == 0 {
                    assert(join(done, "; "@) =~= p);
                }
            }
        }
        assert(m@ =~= start + join(done, "; "@));
        assert(done =~= parts);
        extend_str(&mut m, ". Fix lockfile/deps before relying on Weave for a complete env.");
        (AdoptionVerdict::Blocked, string_of(&m))
    } else if !execution_config_required {
        let mut m = chars_of("Extraction-ready: ");
        extend_str(&mut m, decimal_string(extraction_only_count as u64).as_str());
        extend_str(
            &mut m,
            " package(s) need only tarball materialization. No execution configuration required — plain `weave switch` is the complete path.",
        );
        (AdoptionVerdict::ExtractionReady, string_of(&m))
    } else {
        let mut m = chars_of("Partial: plain `weave switch` materializes tarballs, but ");
        extend_str(&mut m, decimal_string(needs_execution_count as u64).as_str());
        extend_str(&mut m, " package(s) need reviewed opt-in policy for completeness (");
        extend_str(&mut m, decimal_string(native_policy_gap_count as u64).as_str());
        extend_str(
            &mut m,
            " native policy gap(s)). Environment may run without them if unused at runtime.",
        );
        (AdoptionVerdict::PartialNeedsPolicy, string_of(&m))
    };
    let enabled = match cfg {
        Some(c) => c.is_enabled(),
        None => false,
    };
    let mut next_actions: Vec<AdoptionAction> = Vec::new();
    if enabled && verdict == AdoptionVerdict::PartialNeedsPolicy {
        push_action(
            &mut next_actions,
            "weave switch --with-exec",
            "execution.enabled is already true — dual gate still requires --with-exec for sandboxed apply.",
        );
    }
    let ghost pre = action_models(next_actions@);
    match verdict {
        AdoptionVerdict::ExtractionReady => {
            push_action(
                &mut next_actions,
                "weave init && weave switch",
                "Initialize Weave metadata and materialize node_modules from the lockfile (offline after artifacts are in the CAS).",
            );
            push_action(
                &mut next_actions,
                "weave doctor",
                "Confirm store, peers, and that no unexpected lifecycle/native gaps appear.",
            );
            push_action(
                &mut next_actions,
                "node <your-entrypoint>",
                "Run the app against the activated tree — no [execution] block needed.",
            );
        },
        AdoptionVerdict::PartialNeedsPolicy => {
            push_action(
                &mut next_actions,
                "weave switch",
                "Materialize extraction-only packages now. Plain switch never executes and never opens network for install scripts.",
            );
            push_action(
                &mut next_actions,
                "weave exec plan",
                "See which packages are incomplete and why (native gaps, missing outputs).",
            );
            push_action(
                &mut next_actions,
                "weave exec suggest",
                "Emit reviewable allowlist/prebuild drafts only when safe metadata exists. Suggestions never set enabled=true.",
            );
            if native_policy_gap_count > 0 {
                push_action(
                    &mut next_actions,
                    "add execution.prebuild.fetches (manual SRI)",
                    "Packages lacking static integrity cannot be auto-suggested. Verify artifacts offline, then declare HTTPS url + SRI + output yourself. Docs: docs/native.md / docs/adoption.md.",
                );
            }
            push_action(
                &mut next_actions,
                "enable + weave switch --with-exec",
                "Only after reviewing config: set execution.enabled=true (dual gate). Env vars cannot enable execution.",
            );
        },
        AdoptionVerdict::Blocked => {
            if missing_required_peers > 0 {
                push_action(
                    &mut next_actions,
                    "fix package-lock.json peers",
                    "Weave does not auto-install missing required peerDependencies — add them to the lockfile with npm/yarn and re-lock.",
                );
            }
            if reject_platform > 0 {
                let mut w = chars_of("Required packages reject host ");
                extend_str(&mut w, host.npm_os());
                extend_str(&mut w, "/");
                extend_str(&mut w, host.npm_cpu());
                extend_str(&mut w, ".");
                let ws = string_of(&w);
                push_action(&mut next_actions, "replace platform-incompatible required deps", ws.as_str());
            }
            if blocked_count > 0 {
                push_action(
                    &mut next_actions,
                    "remove or replace unsafe install-script packages",
                    "Weave fails closed on packages classified unsupported/unsafe rather than granting open network to lifecycle scripts.",
                );
            }
            push_action(
                &mut next_actions,
                "weave doctor && weave exec plan",
                "Re-check after lockfile/dependency fixes.",
            );
        },
    }
    assert(action_models(next_actions@) =~= actions_of(
        verdict,
        mp,
        rj,
        bc,
        native_policy_gap_count as nat,
        *host,
        enabled,
    ));
    AdoptionAssessment {
        verdict,
        summary,
        next_actions,
        gaps,
        extraction_only_count,
        needs_execution_count,
        blocked_count,
        native_policy_gap_count,
        execution_config_required,
        executed: false,
    }
}

// ---------------------------------------------------------------------------
// Rendering
// ---------------------------------------------------------------------------

/// `Debug` rendering of a verdict.
pub open spec fn verdict_text(v: AdoptionVerdict) -> Seq<char> {
    match v {
        AdoptionVerdict::ExtractionReady => "ExtractionReady"@,
        AdoptionVerdict::PartialNeedsPolicy => "PartialNeedsPolicy"@,
        AdoptionVerdict::Blocked => "Blocked"@,
    }
}

/// Gap lines of the rendered assessment.
pub open spec fn gap_lines(gs: Seq<(Seq<char>, Seq<char>, Seq<char>, Seq<char>)>) -> Seq<char>
    decreases gs.len(),
{
    if gs.len() == 0 {
        Seq::empty()
    } else {
        let g = gs.last();
        gap_lines(gs.drop_last()) + "  - "@ + g.0 + " ["@ + g.1 + "]: "@ + g.2 + "\n      → "@ + g.3
            + "\n"@
    }
}

/// Numbered action lines of the rendered assessment.
pub open spec fn action_lines(acts: Seq<(Seq<char>, Seq<char>)>) -> Seq<char>
    decreases acts.len(),
{
    if acts.len() == 0 {
        Seq::empty()
    } else {
        let a = acts.last();
        action_lines(acts.drop_last()) + "  "@ + decimal(acts.len()) + ". "@ + a.0 + " — "@ + a.1 + "\n"@
    }
}

/// The closing note of the rendered assessment.
pub open spec fn adoption_note() -> Seq<char> {
    "Note: assessment never executed scripts or contacted the network; Weave never invents SRI, URLs, outputs, or permissions.\n"@
}

/// The rendered assessment.
pub open spec fn adoption_text(a: AdoptionAssessment) -> Seq<char> {
    "Adoption: "@ + verdict_text(a.verdict) + " — "@ + a.summary@ + "\n"@ + (if a.gaps@.len() == 0 {
        Seq::empty()
    } else {
        "Gaps:\n"@ + gap_lines(gap_models(a.gaps@))
    }) + "Next:\n"@ + action_lines(action_models(a.next_actions@)) + adoption_note()
}

/// Human-readable rendering of an assessment.
pub fn render_adoption_text(a: &AdoptionAssessment) -> (r: String)
    requires
        a.next_actions@.len() < u64::MAX,
    ensures
        r@ == adoption_text(*a),
{
    let mut out = chars_of("Adoption: ");
    let v = match a.verdict {
        AdoptionVerdict::ExtractionReady => "ExtractionReady",
        AdoptionVerdict::PartialNeedsPolicy => "PartialNeedsPolicy",
        AdoptionVerdict::Blocked => "Blocked",
    };
    extend_str(&mut out, v);
    extend_str(&mut out, " — ");
    extend_str(&mut out, a.summary.as_str());
    extend_str(&mut out, "\n");
    let ghost head = out@;
    if a.gaps.len() > 0 {
        extend_str(&mut out, "Gaps:\n");
        let ghost start = out@;
        let ghost gm = gap_models(a.gaps@);
        let mut i: usize = 0;
        assert(gm.take(0) =~= Seq::<(Seq<char>, Seq<char>, Seq<char>, Seq<char>)>::empty());
        assert(out@ =~= start + gap_lines(gm.take(0)));
        while i < a.gaps.len()
            invariant
                i <= gm.len(),
                gm == gap_models(a.gaps@),
                out@ == start + gap_lines(gm.take(i as int)),
            decreases gm.len() - i,
        {
            let g = &a.gaps[i];
            assert(gm.take(i + 1).drop_last() =~= gm.take(i as int));
            assert(gm.take(i + 1).last() == g.model());
            extend_str(&mut out, "  - ");
            extend_str(&mut out, g.package.as_str());
            extend_str(&mut out, " [");
            extend_str(&mut out, g.class.as_str());
            extend_str(&mut out, "]: ");
            extend_str(&mut out, g.issue.as_str());
            extend_str(&mut out, "\n      → ");
            extend_str(&mut out, g.user_must.as_str());
            extend_str(&mut out, "\n");
            assert(out@ =~= start + gap_lines(gm.take(i + 1)));
            i += 1;
        }
        assert(gm.take(gm.len() as int) =~= gm);
        assert(out@ =~= head + ("Gaps:\n"@ + gap_lines(gm)));
    } else {
        assert(out@ =~= head + Seq::<char>::empty());
    }
    let ghost mid = out@;
    extend_str(&mut out, "Next:\n");
    let ghost start2 = out@;
    let ghost am = action_models(a.next_actions@);
    let mut j: usize = 0;
    assert(am.take(0) =~= Seq::<(Seq<char>, Seq<char>)>::empty());
    assert(out@ =~= start2 + action_lines(am.take(0)));
    while j < a.next_actions.len()
        invariant
            j <= am.len(),
            am.len() < u64::MAX,
            am == action_models(a.next_actions@),
            out@ == start2 + action_lines(am.take(j as int)),
        decreases am.len() - j,
    {
        let act = &a.next_actions[j];
        assert(am.take(j + 1).drop_last() =~= am.take(j as int));
        assert(am.take(j + 1).last() == act.model());
        assert(am.take(j + 1).len() == j + 1);
        extend_str(&mut out, "  ");
        extend_str(&mut out, decimal_string((j + 1) as u64).as_str());
        extend_str(&mut out, ". ");
        extend_str(&mut out, act.step.as_str());
        extend_str(&mut out, " — ");
        extend_str(&mut out, act.why.as_str());
        extend_str(&mut out, "\n");
        assert(out@ =~= start2 + action_lines(am.take(j + 1)));
        j += 1;
    }
    assert(am.take(am.len() as int) =~= am);
    extend_str(
        &mut out,
        "Note: assessment never executed scripts or contacted the network; Weave never invents SRI, URLs, outputs, or permissions.\n",
    );
    let r = string_of(&out);
    assert(r@ =~= adoption_text(*a));
    r
}

} // verus!
