//! Diagnostics of a project: the findings `weave doctor` reports for what the
//! lockfile, the audits, the dry-run plan and the store show.
use vstd::prelude::*;
use crate::adoption::{action_models, AdoptionAssessment, AdoptionVerdict};
use crate::audit::{
    count_missing_optional, count_missing_required, count_rejected, count_skipped, finding_models,
    missing_peer_counts, peer_findings, platform_counts,
};
use crate::lockfile::{node_list, DependencyGraph, PackageNode};
use crate::prebuild::HostPlatform;
use crate::text::{chars_of, decimal, decimal_string, extend_str, has_sub, opt_view, own, slice, str_contains, string_of};

verus! {

/// Severity of a finding.
#[derive(Debug, Clone, Copy, PartialEq, Eq, Structural)]
pub enum DoctorSeverity {
    /// Informational.
    Info,
    /// Weave may still work.
    Warn,
    /// Correctness or usability is blocked.
    Error,
}

/// One diagnostic finding.
#[derive(Debug)]
pub struct DoctorFinding {
    /// Severity.
    pub severity: DoctorSeverity,
    /// Stable check id.
    pub check: String,
    /// Human-readable message.
    pub message: String,
}

/// Aggregated doctor report.
#[derive(Debug)]
pub struct DoctorReport {
    /// Project root inspected.
    pub root: String,
    /// Findings in stable order.
    pub findings: Vec<DoctorFinding>,
    /// Adoption readiness, when the lockfile parses.
    pub adoption: Option<AdoptionAssessment>,
}

impl DoctorFinding {
    /// The finding as plain values.
    pub open spec fn model(&self) -> (DoctorSeverity, Seq<char>, Seq<char>) {
        (self.severity, self.check@, self.message@)
    }
}

/// Finding views.
pub open spec fn doctor_models(s: Seq<DoctorFinding>) -> Seq<(DoctorSeverity, Seq<char>, Seq<char>)> {
    s.map_values(|f: DoctorFinding| f.model())
}

impl DoctorReport {
    /// True when any error-severity finding exists.
    pub fn has_errors(&self) -> (r: bool)
        ensures
            r == exists|i: int|
                0 <= i < self.findings@.len() && (#[trigger] self.findings@[i]).severity
                    == DoctorSeverity::Error,
    {
        let mut i: usize = 0;
        while i < self.findings.len()
            invariant
                i <= self.findings@.len(),
                forall|j: int|
                    0 <= j < i ==> (#[trigger] self.findings@[j]).severity != DoctorSeverity::Error,
            decreases self.findings@.len() - i,
        {
            if self.findings[i].severity == DoctorSeverity::Error {
                return true;
            }
            i += 1;
        }
        false
    }
}

/// A finding with the given severity, check and message.
pub fn finding(severity: DoctorSeverity, check: &str, message: String) -> (r: DoctorFinding)
    ensures
        r.model() == (severity, check@, message@),
{
    DoctorFinding { severity, check: own(check), message }
}

fn push_finding(out: &mut Vec<DoctorFinding>, severity: DoctorSeverity, check: &str, message: String)
    ensures
        doctor_models(final(out)@) == doctor_models(old(out)@).push((severity, check@, message@)),
{
    let f = finding(severity, check, message);
    let ghost before = out@;
    out.push(f);
    assert(doctor_models(out@) =~= doctor_models(before).push((severity, check@, message@)));
}

// ---------------------------------------------------------------------------
// Lockfile findings
// ---------------------------------------------------------------------------

/// Number of listed nodes other than the root.
pub open spec fn count_packages(ns: Seq<PackageNode>) -> nat
    decreases ns.len(),
{
    if ns.len() == 0 {
        0
    } else {
        count_packages(ns.drop_last()) + if ns.last().key@.len() != 0 {
            1nat
        } else {
            0nat
        }
    }
}

/// Number of listed nodes that declare an install script.
pub open spec fn count_scripted(ns: Seq<PackageNode>) -> nat
    decreases ns.len(),
{
    if ns.len() == 0 {
        0
    } else {
        count_scripted(ns.drop_last()) + if ns.last().has_install_script {
            1nat
        } else {
            0nat
        }
    }
}

/// Number of listed nodes that look native.
pub open spec fn count_native(ns: Seq<PackageNode>) -> nat
    decreases ns.len(),
{
    if ns.len() == 0 {
        0
    } else {
        count_native(ns.drop_last()) + if ns.last().likely_native {
            1nat
        } else {
            0nat
        }
    }
}

/// Option of a finding as a sequence.
pub open spec fn when(c: bool, f: (DoctorSeverity, Seq<char>, Seq<char>)) -> Seq<(DoctorSeverity, Seq<char>, Seq<char>)> {
    if c {
        seq![f]
    } else {
        Seq::empty()
    }
}

/// The findings a parsed lockfile yields, in order: the lockfile itself,
/// install scripts, peers, optional and required platform fit, native addons.
pub open spec fn lockfile_findings_spec(
    g: DependencyGraph,
    lockfile_name: Seq<char>,
    identity: Seq<char>,
    host: HostPlatform,
) -> Seq<(DoctorSeverity, Seq<char>, Seq<char>)> {
    let ns = node_list(g.nodes);
    let peers = peer_findings(ns, g.nodes);
    let mr = count_missing_required(peers);
    let mo = count_missing_optional(peers);
    let skip = count_skipped(ns, host);
    let reject = count_rejected(ns, host);
    let scripted = count_scripted(ns);
    let native = count_native(ns);
    let plat = host.os@ + "/"@ + host.cpu@;
    seq![(DoctorSeverity::Info, "lockfile"@, lockfile_name + " ok ("@ + decimal(count_packages(ns)) + " packages, id "@ + identity.take(12) + "…)"@)]
        + when(scripted > 0, (DoctorSeverity::Warn, "lifecycle-scripts"@, decimal(scripted) + " package(s) declare install scripts; plain `weave switch` does not execute them (docs/lifecycle.md). Run `weave exec plan` to see whether opt-in sandboxed execution could complete them — scripts never get open network."@))
        + (if mr > 0 {
            seq![(DoctorSeverity::Error, "peer-dependencies"@, decimal(mr) + " required peerDependencies unsatisfied in lockfile. Weave does not auto-install peers — add them with npm and re-lock before `weave switch` can produce a correct environment."@)]
        } else {
            when(peers.len() > 0, (DoctorSeverity::Info, "peer-dependencies"@, decimal(peers.len()) + " peer edge(s) audited ("@ + decimal(mo) + " optional missing)"@))
        })
        + when(skip > 0, (DoctorSeverity::Info, "optional-platform"@, decimal(skip) + " optional package(s) incompatible with "@ + plat + " — will be skipped"@))
        + when(reject > 0, (DoctorSeverity::Error, "platform-required"@, decimal(reject) + " required package(s) incompatible with "@ + plat + " — replace those deps or run on a matching platform before adopting Weave"@))
        + when(native > 0, (DoctorSeverity::Warn, "native-addons"@, decimal(native) + " package(s) look native/addon-related; Weave copies prebuilt artifacts only and does not rebuild. If binaries are missing after switch, declare reviewed prebuild.fetches (with SRI) or rebuild outside Weave — see docs/native.md and docs/adoption.md"@))
}

/// Count non-root, scripted and native-looking nodes.
fn node_counts(g: &DependencyGraph) -> (r: (usize, usize, usize))
    ensures
        r.0 == count_packages(node_list(g.nodes)),
        r.1 == count_scripted(node_list(g.nodes)),
        r.2 == count_native(node_list(g.nodes)),
{
    let ghost ns = node_list(g.nodes);
    let mut pc: usize = 0;
    let mut sc: usize = 0;
    let mut nc: usize = 0;
    let mut i: usize = 0;
    while i < g.nodes.len()
        invariant
            i <= ns.len(),
            ns == node_list(g.nodes),
            pc == count_packages(ns.take(i as int)),
            sc == count_scripted(ns.take(i as int)),
            nc == count_native(ns.take(i as int)),
            pc <= i,
            sc <= i,
            nc <= i,
        decreases ns.len() - i,
    {
        let n = g.nodes.value_at(i);
        assert(ns[i as int] == *n);
        assert(ns.take(i + 1).drop_last() =~= ns.take(i as int));
        if !n.key.is_root() {
            pc += 1;
        }
        if n.has_install_script {
            sc += 1;
        }
        if n.likely_native {
            nc += 1;
        }
        i += 1;
    }
    assert(ns.take(ns.len() as int) =~= ns);
    (pc, sc, nc)
}

/// Append the findings a parsed lockfile yields (before the native-tree
/// inspection and the adoption findings).
#[verifier::rlimit(40)]
pub fn push_lockfile_findings(
    findings: &mut Vec<DoctorFinding>,
    graph: &DependencyGraph,
    lockfile_name: &str,
    identity: &str,
    host: &HostPlatform,
)
    requires
        graph.wf(),
        identity@.len() >= 12,
    ensures
        doctor_models(final(findings)@) == doctor_models(old(findings)@) + lockfile_findings_spec(
            *graph,
            lockfile_name@,
            identity@,
            *host,
        ),
{
    let ghost start = doctor_models(findings@);
    let ghost ns = node_list(graph.nodes);
    let (package_count, scripted, native) = node_counts(graph);
    let idc = chars_of(identity);
    let short = slice(&idc, 0, 12);
    assert(short@ =~= identity@.take(12));
    let mut m = chars_of(lockfile_name);
    extend_str(&mut m, " ok (");
    extend_str(&mut m, decimal_string(package_count as u64).as_str());
    extend_str(&mut m, " packages, id ");
    crate::text::extend_chars(&mut m, &short);
    extend_str(&mut m, "…)");
    push_finding(findings, DoctorSeverity::Info, "lockfile", string_of(&m));
    let ghost s1 = doctor_models(findings@);
    if scripted > 0 {
        let mut m = chars_of(decimal_string(scripted as u64).as_str());
        extend_str(
            &mut m,
            " package(s) declare install scripts; plain `weave switch` does not execute them (docs/lifecycle.md). Run `weave exec plan` to see whether opt-in sandboxed execution could complete them — scripts never get open network.",
        );
        push_finding(findings, DoctorSeverity::Warn, "lifecycle-scripts", string_of(&m));
    }
    let ghost s2 = doctor_models(findings@);
    let peers = graph.audit_peers();
    let (missing_req, missing_opt) = missing_peer_counts(&peers);
    assert(finding_models(peers@).len() == peers@.len());
    if missing_req > 0 {
        let mut m = chars_of(decimal_string(missing_req as u64).as_str());
        extend_str(
            &mut m,
            " required peerDependencies unsatisfied in lockfile. Weave does not auto-install peers — add them with npm and re-lock before `weave switch` can produce a correct environment.",
        );
        push_finding(findings, DoctorSeverity::Error, "peer-dependencies", string_of(&m));
    } else if peers.len() > 0 {
        let mut m = chars_of(decimal_string(peers.len() as u64).as_str());
        extend_str(&mut m, " peer edge(s) audited (");
        extend_str(&mut m, decimal_string(missing_opt as u64).as_str());
        extend_str(&mut m, " optional missing)");
        push_finding(findings, DoctorSeverity::Info, "peer-dependencies", string_of(&m));
    }
    let ghost s3 = doctor_models(findings@);
    let (reject, skip_opt) = platform_counts(graph, host);
    if skip_opt > 0 {
        let mut m = chars_of(decimal_string(skip_opt as u64).as_str());
        extend_str(&mut m, " optional package(s) incompatible with ");
        extend_str(&mut m, host.npm_os());
        extend_str(&mut m, "/");
        extend_str(&mut m, host.npm_cpu());
        extend_str(&mut m, " — will be skipped");
        assert(m@ =~= decimal(skip_opt as nat) + " optional package(s) incompatible with "@ + (host.os@ + "/"@
            + host.cpu@) + " — will be skipped"@);
        push_finding(findings, DoctorSeverity::Info, "optional-platform", string_of(&m));
    }
    let ghost s4 = doctor_models(findings@);
    if reject > 0 {
        let mut m = chars_of(decimal_string(reject as u64).as_str());
        extend_str(&mut m, " required package(s) incompatible with ");
        extend_str(&mut m, host.npm_os());
        extend_str(&mut m, "/");
        extend_str(&mut m, host.npm_cpu());
        extend_str(
            &mut m,
            " — replace those deps or run on a matching platform before adopting Weave",
        );
        assert(m@ =~= decimal(reject as nat) + " required package(s) incompatible with "@ + (host.os@ + "/"@
            + host.cpu@) + " — replace those deps or run on a matching platform before adopting Weave"@);
        push_finding(findings, DoctorSeverity::Error, "platform-required", string_of(&m));
    }
    let ghost s5 = doctor_models(findings@);
    if native > 0 {
        let mut m = chars_of(decimal_string(native as u64).as_str());
        extend_str(
            &mut m,
            " package(s) look native/addon-related; Weave copies prebuilt artifacts only and does not rebuild. If binaries are missing after switch, declare reviewed prebuild.fetches (with SRI) or rebuild outside Weave — see docs/native.md and docs/adoption.md",
        );
        push_finding(findings, DoctorSeverity::Warn, "native-addons", string_of(&m));
    }
    proof {
        let peers_m = peer_findings(ns, graph.nodes);
        let plat = host.os@ + "/"@ + host.cpu@;
        assert(s1 =~= start + seq![(DoctorSeverity::Info, "lockfile"@, lockfile_name@ + " ok ("@ + decimal(count_packages(ns)) + " packages, id "@ + identity@.take(12) + "…)"@)]);
        assert(s2 =~= s1 + when(count_scripted(ns) > 0, (DoctorSeverity::Warn, "lifecycle-scripts"@, decimal(count_scripted(ns)) + " package(s) declare install scripts; plain `weave switch` does not execute them (docs/lifecycle.md). Run `weave exec plan` to see whether opt-in sandboxed execution could complete them — scripts never get open network."@)));
        assert(s4 =~= s3 + when(count_skipped(ns, *host) > 0, (DoctorSeverity::Info, "optional-platform"@, decimal(count_skipped(ns, *host)) + " optional package(s) incompatible with "@ + plat + " — will be skipped"@)));
        assert(s5 =~= s4 + when(count_rejected(ns, *host) > 0, (DoctorSeverity::Error, "platform-required"@, decimal(count_rejected(ns, *host)) + " required package(s) incompatible with "@ + plat + " — replace those deps or run on a matching platform before adopting Weave"@)));
    }
    assert(doctor_models(findings@) =~= start + lockfile_findings_spec(
        *graph,
        lockfile_name@,
        identity@,
        *host,
    ));
}

// ---------------------------------------------------------------------------
// Adoption, artifacts and native binaries
// ---------------------------------------------------------------------------

/// Severity of the adoption finding for a verdict.
pub open spec fn verdict_severity(v: AdoptionVerdict) -> DoctorSeverity {
    match v {
        AdoptionVerdict::ExtractionReady => DoctorSeverity::Info,
        AdoptionVerdict::PartialNeedsPolicy => DoctorSeverity::Warn,
        AdoptionVerdict::Blocked => DoctorSeverity::Error,
    }
}

/// One finding per next action, up to four.
pub open spec fn action_findings(acts: Seq<(Seq<char>, Seq<char>)>) -> Seq<(DoctorSeverity, Seq<char>, Seq<char>)> {
    acts.take(if acts.len() < 4 { acts.len() as int } else { 4 }).map_values(
        |a: (Seq<char>, Seq<char>)| (DoctorSeverity::Info, "adoption-next"@, a.0 + " — "@ + a.1),
    )
}

/// The findings an assessment yields: the verdict, up to four next actions,
/// and the dry-run execution summary.
pub open spec fn adoption_findings(a: AdoptionAssessment) -> Seq<(DoctorSeverity, Seq<char>, Seq<char>)> {
    seq![(verdict_severity(a.verdict), "adoption"@, a.summary@)] + action_findings(
        action_models(a.next_actions@),
    ) + if a.needs_execution_count > 0 {
        seq![(DoctorSeverity::Info, "exec-plan"@, "ADR-0018 dry-run: "@ + decimal(a.needs_execution_count as nat) + " package(s) need opt-in sandboxed execution for completeness; "@ + decimal(a.native_policy_gap_count as nat) + " native policy gap(s) (executed=false; weave exec plan / suggest)"@)]
    } else {
        seq![(DoctorSeverity::Info, "exec-plan"@, "ADR-0018 dry-run: no packages classified as needing execution — no [execution] configuration required"@)]
    }
}

/// Append the findings of an adoption assessment.
pub fn push_adoption_findings(assessment: &AdoptionAssessment, findings: &mut Vec<DoctorFinding>)
    ensures
        doctor_models(final(findings)@) == doctor_models(old(findings)@) + adoption_findings(*assessment),
{
    let ghost start = doctor_models(findings@);
    let severity = match assessment.verdict {
        AdoptionVerdict::ExtractionReady => DoctorSeverity::Info,
        AdoptionVerdict::PartialNeedsPolicy => DoctorSeverity::Warn,
        AdoptionVerdict::Blocked => DoctorSeverity::Error,
    };
    push_finding(findings, severity, "adoption", own(assessment.summary.as_str()));
    let ghost acts = action_models(assessment.next_actions@);
    let ghost s1 = doctor_models(findings@);
    let n = if assessment.next_actions.len() < 4 {
        assessment.next_actions.len()
    } else {
        4
    };
    let mut i: usize = 0;
    while i < n
        invariant
            i <= n,
            n <= acts.len(),
            n == (if acts.len() < 4 { acts.len() as int } else { 4 }),
            acts == action_models(assessment.next_actions@),
            doctor_models(findings@) == s1 + acts.take(i as int).map_values(
                |a: (Seq<char>, Seq<char>)| (DoctorSeverity::Info, "adoption-next"@, a.0 + " — "@ + a.1),
            ),
        decreases n - i,
    {
        let a = &assessment.next_actions[i];
        let mut m = chars_of(a.step.as_str());
        extend_str(&mut m, " — ");
        extend_str(&mut m, a.why.as_str());
        push_finding(findings, DoctorSeverity::Info, "adoption-next", string_of(&m));
        assert(acts.take(i + 1) =~= acts.take(i as int).push(acts[i as int]));
        assert(acts.take(i + 1).map_values(
            |a: (Seq<char>, Seq<char>)| (DoctorSeverity::Info, "adoption-next"@, a.0 + " — "@ + a.1),
        ) =~= acts.take(i as int).map_values(
            |a: (Seq<char>, Seq<char>)| (DoctorSeverity::Info, "adoption-next"@, a.0 + " — "@ + a.1),
        ).push((DoctorSeverity::Info, "adoption-next"@, acts[i as int].0 + " — "@ + acts[i as int].1)));
        i += 1;
    }
    if assessment.needs_execution_count > 0 {
        let mut m = chars_of("ADR-0018 dry-run: ");
        extend_str(&mut m, decimal_string(assessment.needs_execution_count as u64).as_str());
        extend_str(&mut m, " package(s) need opt-in sandboxed execution for completeness; ");
        extend_str(&mut m, decimal_string(assessment.native_policy_gap_count as u64).as_str());
        extend_str(&mut m, " native policy gap(s) (executed=false; weave exec plan / suggest)");
        push_finding(findings, DoctorSeverity::Info, "exec-plan", string_of(&m));
    } else {
        push_finding(
            findings,
            DoctorSeverity::Info,
            "exec-plan",
            own(
                "ADR-0018 dry-run: no packages classified as needing execution — no [execution] configuration required",
            ),
        );
    }
    assert(doctor_models(findings@) =~= start + adoption_findings(*assessment));
}

/// The finding that summarizes the recorded-artifact check.
pub open spec fn artifact_summary(checked: nat, missing: nat) -> (DoctorSeverity, Seq<char>, Seq<char>) {
    if checked == 0 {
        (DoctorSeverity::Info, "artifacts"@, "no environment artifacts recorded yet"@)
    } else if missing == 0 {
        (DoctorSeverity::Info, "artifacts"@, "all "@ + decimal(checked) + " recorded artifacts present in store"@)
    } else {
        (DoctorSeverity::Error, "artifacts"@, decimal(missing) + "/"@ + decimal(checked) + " recorded artifacts missing from store"@)
    }
}

/// Summarize how many recorded artifacts were checked and how many are missing.
pub fn artifact_summary_finding(checked: usize, missing: usize) -> (r: DoctorFinding)
    ensures
        r.model() == artifact_summary(checked as nat, missing as nat),
{
    if checked == 0 {
        finding(DoctorSeverity::Info, "artifacts", own("no environment artifacts recorded yet"))
    } else if missing == 0 {
        let mut m = chars_of("all ");
        extend_str(&mut m, decimal_string(checked as u64).as_str());
        extend_str(&mut m, " recorded artifacts present in store");
        finding(DoctorSeverity::Info, "artifacts", string_of(&m))
    } else {
        let mut m = chars_of(decimal_string(missing as u64).as_str());
        extend_str(&mut m, "/");
        extend_str(&mut m, decimal_string(checked as u64).as_str());
        extend_str(&mut m, " recorded artifacts missing from store");
        finding(DoctorSeverity::Error, "artifacts", string_of(&m))
    }
}

/// The finding for native-looking packages checked for `.node` binaries, if any were checked.
pub open spec fn native_tree_summary(checked: nat, missing: nat) -> Option<(DoctorSeverity, Seq<char>, Seq<char>)> {
    if checked == 0 {
        None
    } else if missing > 0 {
        Some((DoctorSeverity::Warn, "native-rebuild"@, decimal(missing) + "/"@ + decimal(checked) + " native-looking package(s) lack a .node binary after materialization — this is expected when install scripts were not run. Rebuild outside Weave, or add reviewed execution.prebuild.fetches with SRI (docs/native.md / docs/adoption.md). Weave will not invent integrity or open script networking."@))
    } else {
        Some((DoctorSeverity::Info, "native-rebuild"@, decimal(checked) + " native-looking package(s) include prebuilt .node artifacts"@))
    }
}

/// Summarize the native-binary inspection of an activated tree.
pub fn native_tree_finding(checked: usize, missing: usize) -> (r: Option<DoctorFinding>)
    ensures
        match (r, native_tree_summary(checked as nat, missing as nat)) {
            (Some(f), Some(m)) => f.model() == m,
            (None, None) => true,
            _ => false,
        },
{
    if checked == 0 {
        None
    } else if missing > 0 {
        let mut m = chars_of(decimal_string(missing as u64).as_str());
        extend_str(&mut m, "/");
        extend_str(&mut m, decimal_string(checked as u64).as_str());
        extend_str(
            &mut m,
            " native-looking package(s) lack a .node binary after materialization — this is expected when install scripts were not run. Rebuild outside Weave, or add reviewed execution.prebuild.fetches with SRI (docs/native.md / docs/adoption.md). Weave will not invent integrity or open script networking.",
        );
        Some(finding(DoctorSeverity::Warn, "native-rebuild", string_of(&m)))
    } else {
        let mut m = chars_of(decimal_string(checked as u64).as_str());
        extend_str(&mut m, " native-looking package(s) include prebuilt .node artifacts");
        Some(finding(DoctorSeverity::Info, "native-rebuild", string_of(&m)))
    }
}

/// Whether an installed package looks native: its package.json mentions
/// node-gyp, node-addon-api or a `"binary"` key, it ships `binding.gyp`, or
/// its path names a well-known native package.
pub open spec fn looks_native_install(package_json: Seq<char>, has_binding_gyp: bool, name: Seq<char>) -> bool {
    has_sub(package_json, "node-gyp"@) || has_sub(package_json, "node-addon-api"@) || has_sub(
        package_json,
        "\"binary\""@,
    ) || has_binding_gyp || has_sub(name, "sqlite3"@) || has_sub(name, "bcrypt"@) || has_sub(
        name,
        "fsevents"@,
    ) || has_sub(name, "sharp"@)
}

/// Whether an installed package looks native (see [`looks_native_install`]).
pub fn looks_native_installed(package_json: &str, has_binding_gyp: bool, name: &str) -> (r: bool)
    ensures
        r == looks_native_install(package_json@, has_binding_gyp, name@),
{
    str_contains(package_json, "node-gyp") || str_contains(package_json, "node-addon-api")
        || str_contains(package_json, "\"binary\"") || has_binding_gyp || str_contains(name, "sqlite3")
        || str_contains(name, "bcrypt") || str_contains(name, "fsevents") || str_contains(
        name,
        "sharp",
    )
}

/// The repository the project lives in, and its branch.
pub fn repository_finding(root: &str, branch: Option<&str>) -> (r: DoctorFinding)
    ensures
        r.model() == (
            DoctorSeverity::Info,
            "git"@,
            "repository "@ + root@ + " (branch "@ + match branch {
                Some(b) => b@,
                None => "detached"@,
            } + ")"@,
        ),
{
    let mut m = chars_of("repository ");
    extend_str(&mut m, root);
    extend_str(&mut m, " (branch ");
    match branch {
        Some(b) => extend_str(&mut m, b),
        None => extend_str(&mut m, "detached"),
    }
    extend_str(&mut m, ")");
    finding(DoctorSeverity::Info, "git", string_of(&m))
}

/// The project has no npm lockfile.
pub fn missing_lockfile_finding() -> (r: DoctorFinding)
    ensures
        r.model() == (
            DoctorSeverity::Error,
            "lockfile"@,
            "package-lock.json missing — Weave requires an npm lockfile (run npm install to generate one, then weave init)"@,
        ),
{
    finding(
        DoctorSeverity::Error,
        "lockfile",
        own("package-lock.json missing — Weave requires an npm lockfile (run npm install to generate one, then weave init)"),
    )
}

/// Whether `.weave/` exists.
pub fn init_finding(initialized: bool) -> (r: DoctorFinding)
    ensures
        r.model() == if initialized {
            (DoctorSeverity::Info, "weave-init"@, ".weave/config.toml present"@)
        } else {
            (
                DoctorSeverity::Warn,
                "weave-init"@,
                "Weave not initialized — run `weave init` then `weave switch` (docs/adoption.md)"@,
            )
        },
{
    if initialized {
        finding(DoctorSeverity::Info, "weave-init", own(".weave/config.toml present"))
    } else {
        finding(
            DoctorSeverity::Warn,
            "weave-init",
            own("Weave not initialized — run `weave init` then `weave switch` (docs/adoption.md)"),
        )
    }
}

/// Whether the configured object store has its `sha256/` directory.
pub fn store_finding(store_path: &str, has_objects: bool) -> (r: DoctorFinding)
    ensures
        r.model() == if has_objects {
            (DoctorSeverity::Info, "store"@, "object store ok at "@ + store_path@)
        } else {
            (
                DoctorSeverity::Warn,
                "store"@,
                "store path "@ + store_path@ + " missing sha256/ — run weave init or check WEAVE_HOME"@,
            )
        },
{
    if has_objects {
        let mut m = chars_of("object store ok at ");
        extend_str(&mut m, store_path);
        finding(DoctorSeverity::Info, "store", string_of(&m))
    } else {
        let mut m = chars_of("store path ");
        extend_str(&mut m, store_path);
        extend_str(&mut m, " missing sha256/ — run weave init or check WEAVE_HOME");
        finding(DoctorSeverity::Warn, "store", string_of(&m))
    }
}

/// The active environment pointer and whether its record loads.
pub fn active_env_finding(active: Option<&str>, record_ok: bool) -> (r: DoctorFinding)
    ensures
        r.model() == match active {
            None => (
                DoctorSeverity::Info,
                "active-env"@,
                "no active environment pointer — run `weave switch` after init"@,
            ),
            Some(id) => if record_ok {
                (DoctorSeverity::Info, "active-env"@, "active environment "@ + id@)
            } else {
                (DoctorSeverity::Error, "active-env"@, "active pointer "@ + id@ + " has no environment record"@)
            },
        },
{
    match active {
        None => finding(
            DoctorSeverity::Info,
            "active-env",
            own("no active environment pointer — run `weave switch` after init"),
        ),
        Some(id) => {
            if record_ok {
                let mut m = chars_of("active environment ");
                extend_str(&mut m, id);
                finding(DoctorSeverity::Info, "active-env", string_of(&m))
            } else {
                let mut m = chars_of("active pointer ");
                extend_str(&mut m, id);
                extend_str(&mut m, " has no environment record");
                finding(DoctorSeverity::Error, "active-env", string_of(&m))
            }
        },
    }
}

/// Findings for leftovers of an interrupted switch: the candidate tree at
/// `candidate` and the backup at `backup`, when they exist.
pub fn push_leftover_findings(
    findings: &mut Vec<DoctorFinding>,
    candidate: &str,
    candidate_exists: bool,
    backup: &str,
    backup_exists: bool,
)
    ensures
        doctor_models(final(findings)@) == doctor_models(old(findings)@) + (if candidate_exists {
            seq![(
                DoctorSeverity::Warn,
                "candidate"@,
                "leftover candidate at "@ + candidate@
                    + " (incomplete switch?) — safe to remove after confirming active node_modules is intact"@,
            )]
        } else {
            Seq::empty()
        }) + (if backup_exists {
            seq![(
                DoctorSeverity::Warn,
                "backup-node-modules"@,
                "leftover backup at "@ + backup@ + " (interrupted activation?) — inspect before deleting"@,
            )]
        } else {
            Seq::empty()
        }),
{
    let ghost start = doctor_models(findings@);
    if candidate_exists {
        let mut m = chars_of("leftover candidate at ");
        extend_str(&mut m, candidate);
        extend_str(&mut m, " (incomplete switch?) — safe to remove after confirming active node_modules is intact");
        push_finding(findings, DoctorSeverity::Warn, "candidate", string_of(&m));
    }
    let ghost mid = doctor_models(findings@);
    if backup_exists {
        let mut m = chars_of("leftover backup at ");
        extend_str(&mut m, backup);
        extend_str(&mut m, " (interrupted activation?) — inspect before deleting");
        push_finding(findings, DoctorSeverity::Warn, "backup-node-modules", string_of(&m));
    }
    assert(doctor_models(findings@) =~= start + (if candidate_exists {
        seq![(
            DoctorSeverity::Warn,
            "candidate"@,
            "leftover candidate at "@ + candidate@
                + " (incomplete switch?) — safe to remove after confirming active node_modules is intact"@,
        )]
    } else {
        Seq::empty()
    }) + (if backup_exists {
        seq![(
            DoctorSeverity::Warn,
            "backup-node-modules"@,
            "leftover backup at "@ + backup@ + " (interrupted activation?) — inspect before deleting"@,
        )]
    } else {
        Seq::empty()
    }));
}

/// An environment records a text that is not an artifact id.
pub fn invalid_artifact_id_finding(env_id: &str, id_text: &str) -> (r: DoctorFinding)
    ensures
        r.model() == (DoctorSeverity::Warn, "artifact-id"@, "invalid artifact id in env "@ + env_id@ + ": "@ + id_text@),
{
    let mut m = chars_of("invalid artifact id in env ");
    extend_str(&mut m, env_id);
    extend_str(&mut m, ": ");
    extend_str(&mut m, id_text);
    finding(DoctorSeverity::Warn, "artifact-id", string_of(&m))
}

/// A stored artifact no longer hashes to its id.
pub fn corrupt_artifact_finding(id: &str) -> (r: DoctorFinding)
    ensures
        r.model() == (DoctorSeverity::Error, "artifact-corrupt"@, "corrupt artifact "@ + id@),
{
    let mut m = chars_of("corrupt artifact ");
    extend_str(&mut m, id);
    finding(DoctorSeverity::Error, "artifact-corrupt", string_of(&m))
}

// ---------------------------------------------------------------------------
// The report
// ---------------------------------------------------------------------------

/// Finding the git repository.
pub enum GitOutcome {
    /// The repository root and its branch (`None` when detached).
    Found { root: String, branch: Option<String> },
    /// The error text.
    Failed { message: String },
}

/// Reading the lockfile.
pub enum LockfileOutcome {
    /// No npm lockfile.
    Missing,
    /// It parsed: its file name, graph and graph identity, the findings of
    /// the installed-tree inspection, and the adoption assessment.
    Parsed {
        name: String,
        graph: DependencyGraph,
        identity: String,
        native_tree: Vec<DoctorFinding>,
        adoption: AdoptionAssessment,
    },
    /// The error text.
    Failed { message: String },
}

/// Loading `.weave/config.toml`.
pub enum ConfigOutcome {
    /// The configured store, whether it has `sha256/`, and the findings of
    /// checking the recorded artifacts against it.
    Loaded { store_path: String, store_has_objects: bool, artifact_findings: Vec<DoctorFinding> },
    /// The error text.
    Failed { message: String },
}

/// Reading the active environment pointer.
pub enum ActiveOutcome {
    /// No pointer.
    Unset,
    /// The active id, and whether its record loads.
    Active { id: String, record_ok: bool },
    /// The error text.
    Failed { message: String },
}

/// What was found of the project.
pub struct ProjectFacts {
    /// `package.json` exists.
    pub package_json: bool,
    /// The lockfile.
    pub lockfile: LockfileOutcome,
    /// `.weave/` exists.
    pub initialized: bool,
    /// The configuration (read when initialized).
    pub config: ConfigOutcome,
    /// The active pointer (read when initialized).
    pub active: ActiveOutcome,
}

/// Discovering the project.
pub enum ProjectOutcome {
    /// It was found.
    Found(ProjectFacts),
    /// Not inside a git repository (already reported by the git check).
    NotARepository,
    /// Another error's text.
    Failed { message: String },
}

/// Everything `weave doctor` looked at, as plain values.
pub struct DoctorFacts {
    /// Where the inspection started.
    pub start: String,
    /// The git repository.
    pub git: GitOutcome,
    /// The project.
    pub project: ProjectOutcome,
    /// The host platform.
    pub host: HostPlatform,
    /// Path of the candidate tree, and whether it exists.
    pub candidate: String,
    pub candidate_exists: bool,
    /// Path of the backup `node_modules`, and whether it exists.
    pub backup: String,
    pub backup_exists: bool,
}

/// A parsed lockfile's graph is well formed and its identity is at least 12
/// characters long.
pub open spec fn doctor_facts_wf(f: DoctorFacts) -> bool {
    f.project matches ProjectOutcome::Found(p) ==> (p.lockfile matches LockfileOutcome::Parsed { graph, identity, .. }
        ==> graph.wf() && identity@.len() >= 12)
}

/// The git findings.
pub open spec fn git_findings(g: GitOutcome) -> Seq<(DoctorSeverity, Seq<char>, Seq<char>)> {
    match g {
        GitOutcome::Found { root, branch } => seq![(
            DoctorSeverity::Info,
            "git"@,
            "repository "@ + root@ + " (branch "@ + match opt_view(branch) {
                Some(b) => b,
                None => "detached"@,
            } + ")"@,
        )],
        GitOutcome::Failed { message } => seq![(DoctorSeverity::Error, "git"@, message@)],
    }
}

/// The lockfile findings.
pub open spec fn lockfile_outcome_findings(l: LockfileOutcome, host: HostPlatform) -> Seq<(DoctorSeverity, Seq<char>, Seq<char>)> {
    match l {
        LockfileOutcome::Missing => seq![(
            DoctorSeverity::Error,
            "lockfile"@,
            "package-lock.json missing — Weave requires an npm lockfile (run npm install to generate one, then weave init)"@,
        )],
        LockfileOutcome::Parsed { name, graph, identity, native_tree, adoption } => lockfile_findings_spec(
            graph,
            name@,
            identity@,
            host,
        ) + (if count_native(node_list(graph.nodes)) > 0 {
            doctor_models(native_tree@)
        } else {
            Seq::empty()
        }) + adoption_findings(adoption),
        LockfileOutcome::Failed { message } => seq![(DoctorSeverity::Error, "lockfile"@, message@)],
    }
}

/// The configuration and store findings.
pub open spec fn config_findings(c: ConfigOutcome) -> Seq<(DoctorSeverity, Seq<char>, Seq<char>)> {
    match c {
        ConfigOutcome::Loaded { store_path, store_has_objects, artifact_findings } => if store_has_objects {
            seq![(DoctorSeverity::Info, "store"@, "object store ok at "@ + store_path@)] + doctor_models(
                artifact_findings@,
            )
        } else {
            seq![(
                DoctorSeverity::Warn,
                "store"@,
                "store path "@ + store_path@ + " missing sha256/ — run weave init or check WEAVE_HOME"@,
            )]
        },
        ConfigOutcome::Failed { message } => seq![(DoctorSeverity::Error, "weave-config"@, message@)],
    }
}

/// The active-environment finding.
pub open spec fn active_findings(a: ActiveOutcome) -> Seq<(DoctorSeverity, Seq<char>, Seq<char>)> {
    match a {
        ActiveOutcome::Unset => seq![(
            DoctorSeverity::Info,
            "active-env"@,
            "no active environment pointer — run `weave switch` after init"@,
        )],
        ActiveOutcome::Active { id, record_ok } => if record_ok {
            seq![(DoctorSeverity::Info, "active-env"@, "active environment "@ + id@)]
        } else {
            seq![(DoctorSeverity::Error, "active-env"@, "active pointer "@ + id@ + " has no environment record"@)]
        },
        ActiveOutcome::Failed { message } => seq![(DoctorSeverity::Warn, "active-env"@, message@)],
    }
}

/// The project findings.
pub open spec fn project_findings(o: ProjectOutcome, host: HostPlatform) -> Seq<(DoctorSeverity, Seq<char>, Seq<char>)> {
    match o {
        ProjectOutcome::Found(p) => when(p.package_json, (DoctorSeverity::Info, "package-json"@, "package.json present"@))
            + lockfile_outcome_findings(p.lockfile, host) + if p.initialized {
            seq![(DoctorSeverity::Info, "weave-init"@, ".weave/config.toml present"@)] + config_findings(p.config)
                + active_findings(p.active)
        } else {
            seq![(
                DoctorSeverity::Warn,
                "weave-init"@,
                "Weave not initialized — run `weave init` then `weave switch` (docs/adoption.md)"@,
            )]
        },
        ProjectOutcome::NotARepository => Seq::empty(),
        ProjectOutcome::Failed { message } => seq![(DoctorSeverity::Error, "project"@, message@)],
    }
}

/// Every finding of a doctor run, in order.
pub open spec fn doctor_spec(f: DoctorFacts) -> Seq<(DoctorSeverity, Seq<char>, Seq<char>)> {
    git_findings(f.git) + project_findings(f.project, f.host) + when(
        f.candidate_exists,
        (
            DoctorSeverity::Warn,
            "candidate"@,
            "leftover candidate at "@ + f.candidate@
                + " (incomplete switch?) — safe to remove after confirming active node_modules is intact"@,
        ),
    ) + when(
        f.backup_exists,
        (
            DoctorSeverity::Warn,
            "backup-node-modules"@,
            "leftover backup at "@ + f.backup@ + " (interrupted activation?) — inspect before deleting"@,
        ),
    )
}

fn push_one(out: &mut Vec<DoctorFinding>, f: DoctorFinding)
    ensures
        doctor_models(final(out)@) == doctor_models(old(out)@).push(f.model()),
{
    let ghost before = out@;
    out.push(f);
    assert(doctor_models(out@) =~= doctor_models(before).push(f.model()));
}

fn append_findings(findings: &mut Vec<DoctorFinding>, more: Vec<DoctorFinding>)
    ensures
        doctor_models(final(findings)@) == doctor_models(old(findings)@) + doctor_models(more@),
{
    let ghost start = doctor_models(findings@);
    let ghost mv = doctor_models(more@);
    let mut more = more;
    let ghost m0 = more@;
    let mut k: usize = 0;
    let n = more.len();
    while more.len() > 0
        invariant
            k <= n,
            n == m0.len(),
            more@ == m0.skip(k as int),
            mv == doctor_models(m0),
            doctor_models(findings@) == start + mv.take(k as int),
        decreases more@.len(),
    {
        let ghost before = more@;
        let f = more.remove(0);
        proof {
            before.remove_ensures(0);
            assert(more@ =~= m0.skip(k + 1));
            assert(f == m0[k as int]);
        }
        let ghost fb = doctor_models(findings@);
        findings.push(f);
        assert(doctor_models(findings@) =~= fb.push(f.model()));
        assert(mv.take(k + 1) =~= mv.take(k as int).push(mv[k as int]));
        k += 1;
    }
    assert(mv.take(n as int) =~= mv);
}

fn push_lockfile_outcome(findings: &mut Vec<DoctorFinding>, lockfile: LockfileOutcome, host: &HostPlatform) -> (r: Option<AdoptionAssessment>)
    requires
        lockfile matches LockfileOutcome::Parsed { graph, identity, .. } ==> graph.wf() && identity@.len() >= 12,
    ensures
        doctor_models(final(findings)@) == doctor_models(old(findings)@) + lockfile_outcome_findings(lockfile, *host),
        match lockfile {
            LockfileOutcome::Parsed { adoption, .. } => r == Some(adoption),
            _ => r is None,
        },
{
    let ghost l0 = lockfile;
    let ghost start = doctor_models(findings@);
    match lockfile {
        LockfileOutcome::Missing => {
            push_one(findings, missing_lockfile_finding());
            assert(doctor_models(findings@) =~= start + lockfile_outcome_findings(l0, *host));
            None
        },
        LockfileOutcome::Parsed { name, graph, identity, native_tree, adoption } => {
            push_lockfile_findings(findings, &graph, name.as_str(), identity.as_str(), host);
            let ghost s1 = doctor_models(findings@);
            let (_, _, native) = node_counts(&graph);
            if native > 0 {
                append_findings(findings, native_tree);
            }
            let ghost s2 = doctor_models(findings@);
            push_adoption_findings(&adoption, findings);
            assert(doctor_models(findings@) =~= start + lockfile_outcome_findings(l0, *host));
            Some(adoption)
        },
        LockfileOutcome::Failed { message } => {
            push_one(findings, finding(DoctorSeverity::Error, "lockfile", message));
            assert(doctor_models(findings@) =~= start + lockfile_outcome_findings(l0, *host));
            None
        },
    }
}

fn push_init_findings(findings: &mut Vec<DoctorFinding>, initialized: bool, config: ConfigOutcome, active: ActiveOutcome)
    ensures
        doctor_models(final(findings)@) == doctor_models(old(findings)@) + if initialized {
            seq![(DoctorSeverity::Info, "weave-init"@, ".weave/config.toml present"@)] + config_findings(config)
                + active_findings(active)
        } else {
            seq![(
                DoctorSeverity::Warn,
                "weave-init"@,
                "Weave not initialized — run `weave init` then `weave switch` (docs/adoption.md)"@,
            )]
        },
{
    let ghost start = doctor_models(findings@);
    let ghost c0 = config;
    let ghost a0 = active;
    push_one(findings, init_finding(initialized));
    if initialized {
        let ghost s1 = doctor_models(findings@);
        match config {
            ConfigOutcome::Loaded { store_path, store_has_objects, artifact_findings } => {
                push_one(findings, store_finding(store_path.as_str(), store_has_objects));
                if store_has_objects {
                    append_findings(findings, artifact_findings);
                }
            },
            ConfigOutcome::Failed { message } => {
                push_one(findings, finding(DoctorSeverity::Error, "weave-config", message));
            },
        }
        assert(doctor_models(findings@) =~= s1 + config_findings(c0));
        let ghost s2 = doctor_models(findings@);
        match active {
            ActiveOutcome::Unset => {
                push_one(findings, active_env_finding(None, false));
            },
            ActiveOutcome::Active { id, record_ok } => {
                push_one(findings, active_env_finding(Some(id.as_str()), record_ok));
            },
            ActiveOutcome::Failed { message } => {
                push_one(findings, finding(DoctorSeverity::Warn, "active-env", message));
            },
        }
        assert(doctor_models(findings@) =~= s2 + active_findings(a0));
    }
}

fn push_project_findings(findings: &mut Vec<DoctorFinding>, project: ProjectOutcome, host: &HostPlatform) -> (r: Option<AdoptionAssessment>)
    requires
        project matches ProjectOutcome::Found(p) ==> (p.lockfile matches LockfileOutcome::Parsed { graph, identity, .. }
            ==> graph.wf() && identity@.len() >= 12),
    ensures
        doctor_models(final(findings)@) == doctor_models(old(findings)@) + project_findings(project, *host),
        match project {
            ProjectOutcome::Found(p) => match p.lockfile {
                LockfileOutcome::Parsed { adoption, .. } => r == Some(adoption),
                _ => r is None,
            },
            _ => r is None,
        },
{
    let ghost o0 = project;
    let ghost start = doctor_models(findings@);
    match project {
        ProjectOutcome::Found(p) => {
            let ProjectFacts { package_json, lockfile, initialized, config, active } = p;
            if package_json {
                push_finding(findings, DoctorSeverity::Info, "package-json", own("package.json present"));
            }
            let ghost s1 = doctor_models(findings@);
            assert(s1 =~= start + when(package_json, (DoctorSeverity::Info, "package-json"@, "package.json present"@)));
            let a = push_lockfile_outcome(findings, lockfile, host);
            let ghost s2 = doctor_models(findings@);
            push_init_findings(findings, initialized, config, active);
            assert(doctor_models(findings@) =~= start + project_findings(o0, *host));
            a
        },
        ProjectOutcome::NotARepository => {
            assert(doctor_models(findings@) =~= start + project_findings(o0, *host));
            None
        },
        ProjectOutcome::Failed { message } => {
            push_one(findings, finding(DoctorSeverity::Error, "project", message));
            assert(doctor_models(findings@) =~= start + project_findings(o0, *host));
            None
        },
    }
}

/// The doctor report of what was found: the git check, the project checks
/// (package.json, lockfile with its audits, native tree and adoption,
/// initialization, store and artifacts, active environment), then leftovers
/// of an interrupted switch. The root is the repository's, or where the
/// inspection started.
pub fn doctor_report(facts: DoctorFacts) -> (r: DoctorReport)
    requires
        doctor_facts_wf(facts),
    ensures
        doctor_models(r.findings@) == doctor_spec(facts),
        r.root@ == match facts.git {
            GitOutcome::Found { root, .. } => root@,
            GitOutcome::Failed { .. } => facts.start@,
        },
        match facts.project {
            ProjectOutcome::Found(p) => match p.lockfile {
                LockfileOutcome::Parsed { adoption, .. } => r.adoption == Some(adoption),
                _ => r.adoption is None,
            },
            _ => r.adoption is None,
        },
{
    let ghost f0 = facts;
    let mut findings: Vec<DoctorFinding> = Vec::new();
    let DoctorFacts { start, git, project, host, candidate, candidate_exists, backup, backup_exists } = facts;
    let root = match git {
        GitOutcome::Found { root, branch } => {
            let b: Option<&str> = match &branch {
                Some(x) => Some(x.as_str()),
                None => None,
            };
            push_one(&mut findings, repository_finding(root.as_str(), b));
            root
        },
        GitOutcome::Failed { message } => {
            push_one(&mut findings, finding(DoctorSeverity::Error, "git", message));
            start
        },
    };
    assert(doctor_models(findings@) =~= git_findings(f0.git));
    let adoption = push_project_findings(&mut findings, project, &host);
    push_leftover_findings(&mut findings, candidate.as_str(), candidate_exists, backup.as_str(), backup_exists);
    assert(doctor_models(findings@) =~= doctor_spec(f0));
    DoctorReport { root, findings, adoption }
}

} // verus!
