//! Non-executing execution-policy discovery.
//!
//! Package metadata and static files are inspected to propose lifecycle
//! scripts and candidate output paths. Discovery never runs anything and never
//! approves anything: candidates are not allowlist entries.
use vstd::prelude::*;
use crate::config::ExecutionConfig;
use crate::scan::{candidate_path_problem, script_body_unsafe, script_unsafe_reason, validate_output_candidate_path};
use crate::textmap::{lex_lt, lex_order, TextMap};
use crate::json::{json_flag, json_get, json_get_in, json_text, json_text_list, json_text_map, JsonValue};
use crate::scan::{gyp_target, static_write_hints_spec};
use crate::text::{
    chars_of, debug_quoted, debug_str, decimal, decimal_string, ends_with, extend_str,
    has_char_chars, has_sub, list_has, lower, opt_view, own, replace_all, replace_char,
    starts_with, str_eq, string_of, trim, trim_end_matches, trim_start_matches, vec_has,
};

verus! {

/// Why a package is considered for controlled execution.
#[derive(Debug, Clone, Copy, PartialEq, Eq, Structural)]
pub enum ExecNeedClass {
    /// Tarball contents are expected to be enough.
    ExtractionOnly,
    /// Install scripts likely generate runtime files.
    GeneratedFiles,
    /// Native compile / prebuild fetch likely required.
    NativeBuild,
    /// Broader runtime install mutation (reserved).
    RuntimeInstall,
    /// Must never be auto-executed.
    UnsupportedUnsafe,
}

/// Sandbox profile a runner would request.
#[derive(Debug, Clone, Copy, PartialEq, Eq, Structural)]
pub enum ExecSandboxProfile {
    /// No network.
    Offline,
    /// Allowlisted prebuild CDN access only.
    PrebuildFetch,
}

/// Where a candidate output path came from.
#[derive(Debug, Clone, Copy, PartialEq, Eq, Structural)]
pub enum OutputCandidateSource {
    /// Parsed from `binding.gyp` / `binding.gyp.js` `target_name`.
    BindingGyp,
    /// From package.json `binary` (node-pre-gyp style).
    PackageJsonBinary,
    /// Optional author hint: `package.json` → `weave.declaredOutputs`.
    PackageWeaveHint,
    /// Well-known package name patterns (still candidates, not approvals).
    KnownPackagePattern,
    /// Conservative static string literals in install script sources.
    InstallScriptHint,
    /// Marker file present in the package tree.
    TreeMarker,
}

/// Review posture relative to current config.
#[derive(Debug, Clone, Copy, PartialEq, Eq, Structural)]
pub enum PolicyReviewStatus {
    /// No execution needed.
    ExtractionOnly,
    /// Needs execution but package/outputs are not allowlisted yet.
    NeedsReview,
    /// Allowlisted and declared outputs cover all safe candidates.
    Allowed,
    /// Allowlisted but declared outputs miss safe candidates.
    PartialCoverage,
    /// Classified unsafe / ambiguous — must never be auto-approved.
    BlockedUnsafe,
    /// Needs execution but metadata could not be loaded.
    MetadataMissing,
}

/// One discovered lifecycle script from package.json.
#[derive(Debug, Clone, PartialEq, Eq)]
pub struct DiscoveredScript {
    /// npm lifecycle name (`install`, `postinstall`, …).
    pub name: String,
    /// Script body as declared (for display / static checks only).
    pub body: String,
    /// True when static analysis flags the body as unsafe.
    pub unsafe_body: bool,
    /// Why the body was flagged, when applicable.
    pub unsafe_reason: Option<String>,
}

/// A candidate output path — not an approval.
#[derive(Debug, Clone, PartialEq, Eq)]
pub struct OutputCandidate {
    /// Relative path or single final-component glob (e.g. `build/Release/*.node`).
    pub path: String,
    /// Discovery source.
    pub source: OutputCandidateSource,
    /// Passed path-safety checks as a candidate.
    pub safe: bool,
    /// Rejection reason when `safe` is false.
    pub reject_reason: Option<String>,
}

/// Result of discovering one package directory.
#[derive(Debug, Clone, PartialEq, Eq)]
pub struct PackageDiscovery {
    /// Package directory examined.
    pub package_dir: String,
    /// Package name.
    pub name: String,
    /// Classification.
    pub class: ExecNeedClass,
    /// Suggested sandbox profile (not a network enablement).
    pub sandbox: ExecSandboxProfile,
    /// Whether execution appears necessary for completeness.
    pub needs_execution: bool,
    /// Lifecycle scripts found in package.json.
    pub discovered_scripts: Vec<DiscoveredScript>,
    /// Output path candidates (safe and rejected).
    pub output_candidates: Vec<OutputCandidate>,
    /// True when package.json was read.
    pub metadata_loaded: bool,
    /// Human-readable rationale.
    pub reason: String,
    /// Package must never be auto-suggested into allowlists.
    pub blocked_unsafe: bool,
}

// ---------------------------------------------------------------------------
// Candidates
// ---------------------------------------------------------------------------

/// The fields of a candidate as plain values: path, source, safety verdict
/// and rejection reason.
pub type CandView = (Seq<char>, OutputCandidateSource, bool, Option<Seq<char>>);

/// A candidate by its plain values.
pub open spec fn cand_view(c: OutputCandidate) -> CandView {
    (c.path@, c.source, c.safe, opt_view(c.reject_reason))
}

/// A list of candidates by their plain values.
pub open spec fn cand_views(cs: Seq<OutputCandidate>) -> Seq<CandView> {
    cs.map_values(|c: OutputCandidate| cand_view(c))
}

/// Backslashes turned into forward slashes.
pub open spec fn normalized(p: Seq<char>) -> Seq<char> {
    replace_all(p, seq!['\\'], seq!['/'])
}

/// Some candidate in `cs` has path `p`.
pub open spec fn has_path(cs: Seq<CandView>, p: Seq<char>) -> bool {
    exists|i: int| 0 <= i < cs.len() && cs[i].0 == p
}

/// A newly found candidate at the (normalized) path `p`, with its verdict.
pub open spec fn fresh_candidate(p: Seq<char>, source: OutputCandidateSource) -> CandView {
    (p, source, candidate_path_problem(p).is_none(), candidate_path_problem(p))
}

/// The candidate list after `raw` was found: unchanged when its normalized
/// path is already listed, else the new candidate appended.
pub open spec fn add_candidate(cs: Seq<CandView>, raw: Seq<char>, source: OutputCandidateSource) -> Seq<CandView> {
    let p = normalized(raw);
    if has_path(cs, p) {
        cs
    } else {
        cs.push(fresh_candidate(p, source))
    }
}

/// Candidates `cs` extended by the paths found in `raw`, in the order found.
pub open spec fn collect_onto(cs: Seq<CandView>, raw: Seq<(Seq<char>, OutputCandidateSource)>) -> Seq<CandView>
    decreases raw.len(),
{
    if raw.len() == 0 {
        cs
    } else {
        add_candidate(collect_onto(cs, raw.drop_last()), raw.last().0, raw.last().1)
    }
}

/// No two candidates share a path.
pub open spec fn distinct_paths(cs: Seq<CandView>) -> bool {
    forall|i: int, j: int| 0 <= i < j < cs.len() ==> cs[i].0 != cs[j].0
}

/// Candidates in strictly increasing path order.
pub open spec fn sorted_paths(cs: Seq<CandView>) -> bool {
    forall|i: int, j: int| 0 <= i < j < cs.len() ==> lex_lt(cs[i].0, cs[j].0)
}

/// Collecting never introduces a second candidate for a path.
pub proof fn lemma_collect_distinct(cs: Seq<CandView>, raw: Seq<(Seq<char>, OutputCandidateSource)>)
    requires
        distinct_paths(cs),
    ensures
        distinct_paths(collect_onto(cs, raw)),
    decreases raw.len(),
{
    if raw.len() > 0 {
        lemma_collect_distinct(cs, raw.drop_last());
    }
}

/// Collecting `a + b` is collecting `a`, then `b`.
pub proof fn lemma_collect_append(
    cs: Seq<CandView>,
    a: Seq<(Seq<char>, OutputCandidateSource)>,
    b: Seq<(Seq<char>, OutputCandidateSource)>,
)
    ensures
        collect_onto(cs, a + b) == collect_onto(collect_onto(cs, a), b),
    decreases b.len(),
{
    if b.len() == 0 {
        assert(a + b =~= a);
    } else {
        assert((a + b).drop_last() =~= a + b.drop_last());
        lemma_collect_append(cs, a, b.drop_last());
    }
}

/// Record a candidate path (backslashes normalized) unless one with the same
/// path is already present.
pub fn push_candidate(out: &mut Vec<OutputCandidate>, path: &str, source: OutputCandidateSource)
    ensures
        cand_views(final(out)@) == add_candidate(cand_views(old(out)@), path@, source),
{
    let pc = chars_of(path);
    let norm = replace_char(&pc, '\\', '/');
    let ns = string_of(&norm);
    let ghost before = out@;
    let mut i: usize = 0;
    while i < out.len()
        invariant
            i <= out.len(),
            out@ == before,
            ns@ == normalized(path@),
            forall|j: int| 0 <= j < i ==> out@[j].path@ != ns@,
        decreases out.len() - i,
    {
        if str_eq(out[i].path.as_str(), ns.as_str()) {
            assert(cand_views(out@)[i as int].0 == ns@);
            return;
        }
        i += 1;
    }
    assert(!has_path(cand_views(before), ns@)) by {
        assert forall|j: int| 0 <= j < before.len() implies cand_views(before)[j].0 != ns@ by {
            assert(cand_views(before)[j] == cand_view(before[j]));
        }
    }
    match validate_output_candidate_path(ns.as_str()) {
        Ok(()) => out.push(OutputCandidate { path: ns, source, safe: true, reject_reason: None }),
        Err(reason) => out.push(
            OutputCandidate { path: ns, source, safe: false, reject_reason: Some(reason) },
        ),
    }
    assert(cand_views(out@) =~= cand_views(before).push(fresh_candidate(normalized(path@), source)));
}

/// Candidates ordered by path (`sort_by` on the path, then `dedup_by` path;
/// the paths are distinct, so this is the increasing arrangement).
pub fn sort_candidates(cs: Vec<OutputCandidate>) -> (r: Vec<OutputCandidate>)
    requires
        distinct_paths(cand_views(cs@)),
    ensures
        r@.len() == cs@.len(),
        sorted_paths(cand_views(r@)),
        cand_views(r@).to_set() == cand_views(cs@).to_set(),
{
    let ghost orig = cand_views(cs@);
    let mut src = cs;
    let mut out: Vec<OutputCandidate> = Vec::new();
    assert(orig.skip(orig.len() as int).to_set() =~= cand_views(out@).to_set());
    assert(cand_views(src@) =~= orig.take(orig.len() as int));
    while src.len() > 0
        invariant
            src@.len() <= orig.len(),
            out@.len() + src@.len() == orig.len(),
            cand_views(src@) == orig.take(src@.len() as int),
            cand_views(out@).to_set() == orig.skip(src@.len() as int).to_set(),
            sorted_paths(cand_views(out@)),
            distinct_paths(orig),
        decreases src@.len(),
    {
        let ghost n = src@.len() as int;
        let ghost sv = src@;
        let x = src.pop().unwrap();
        let ghost xv = cand_view(x);
        assert(xv == orig[n - 1]) by {
            assert(cand_views(sv)[n - 1] == orig.take(n)[n - 1]);
        }
        assert(cand_views(src@) =~= orig.take(n - 1));
        let xc = chars_of(x.path.as_str());
        let ghost ov = cand_views(out@);
        // x differs in path from everything already placed.
        assert forall|k: int| 0 <= k < ov.len() implies ov[k].0 != xv.0 by {
            assert(ov.to_set().contains(ov[k]));
            assert(orig.skip(n).to_set().contains(ov[k]));
            let m = choose|m: int| 0 <= m < orig.skip(n).len() && orig.skip(n)[m] == ov[k];
            assert(orig[n + m] == ov[k]);
        }
        let mut j: usize = 0;
        while j < out.len() && lex_order(&chars_of(out[j].path.as_str()), &xc) < 0
            invariant
                j <= out@.len(),
                ov == cand_views(out@),
                xc@ == xv.0,
                forall|k: int| 0 <= k < j ==> lex_lt(ov[k].0, xv.0),
            decreases out@.len() - j,
        {
            assert(ov[j as int] == cand_view(out@[j as int]));
            j += 1;
        }
        if j < out.len() {
            assert(ov[j as int] == cand_view(out@[j as int]));
            proof {
                crate::textmap::lemma_lex_total(ov[j as int].0, xv.0);
            }
            assert(lex_lt(xv.0, ov[j as int].0));
        }
        let ghost oo = out@;
        out.insert(j, x);
        proof {
            ov.insert_ensures(j as int, xv);
            out@.len();
            assert(cand_views(out@) =~= ov.insert(j as int, xv)) by {
                oo.insert_ensures(j as int, x);
            }
            crate::textmap::lemma_seq_insert_set(ov, j as int, xv);
            assert(orig.skip(n - 1) =~= orig.skip(n).insert(0, xv)) by {
                orig.skip(n).insert_ensures(0, xv);
            }
            crate::textmap::lemma_seq_insert_set(orig.skip(n), 0, xv);
            let nv = cand_views(out@);
            assert forall|a: int, b: int| 0 <= a < b < nv.len() implies lex_lt(nv[a].0, nv[b].0) by {
                if b < j {
                } else if a < j && b == j {
                } else if a < j && b > j {
                    if b - 1 > j {
                        crate::textmap::lemma_lex_trans(xv.0, ov[j as int].0, ov[b - 1].0);
                    }
                    crate::textmap::lemma_lex_trans(ov[a].0, xv.0, ov[b - 1].0);
                } else if a == j {
                    if b - 1 > j {
                        crate::textmap::lemma_lex_trans(xv.0, ov[j as int].0, ov[b - 1].0);
                    }
                } else {
                }
            }
        }
    }
    assert(orig.skip(0) =~= orig);
    out
}

/// Safe exact candidate paths, in candidate order.
pub open spec fn suggestable(cs: Seq<OutputCandidate>) -> Seq<Seq<char>>
    decreases cs.len(),
{
    if cs.len() == 0 {
        Seq::empty()
    } else if cs.last().safe && !cs.last().path@.contains('*') {
        suggestable(cs.drop_last()).push(cs.last().path@)
    } else {
        suggestable(cs.drop_last())
    }
}

/// Exact safe paths among `cs` (globs excluded: sealing requires files).
pub fn suggestable_paths(cs: &Vec<OutputCandidate>) -> (r: Vec<String>)
    ensures
        r.deep_view() == suggestable(cs@),
{
    let mut out: Vec<String> = Vec::new();
    let mut i: usize = 0;
    assert(cs@.take(0) =~= Seq::<OutputCandidate>::empty());
    assert(out.deep_view() =~= Seq::<Seq<char>>::empty());
    while i < cs.len()
        invariant
            i <= cs.len(),
            out.deep_view() == suggestable(cs@.take(i as int)),
        decreases cs.len() - i,
    {
        assert(cs@.take(i + 1).drop_last() =~= cs@.take(i as int));
        let ghost before = out.deep_view();
        let pc = chars_of(cs[i].path.as_str());
        if cs[i].safe && !has_char_chars(&pc, '*') {
            out.push(cs[i].path.clone());
            assert(out.deep_view() =~= before.push(cs@[i as int].path@));
        }
        i += 1;
    }
    assert(cs@.take(cs.len() as int) =~= cs@);
    out
}

/// Each path with backslashes turned into forward slashes.
pub open spec fn slashed(l: Seq<Seq<char>>) -> Seq<Seq<char>> {
    l.map_values(|o: Seq<char>| replace_all(o, seq!['\\'], seq!['/']))
}

/// Policy review verdict of a discovery against a configuration.
pub open spec fn review_spec(d: PackageDiscovery, cfg: ExecutionConfig) -> PolicyReviewStatus {
    if d.class == ExecNeedClass::UnsupportedUnsafe || d.blocked_unsafe {
        PolicyReviewStatus::BlockedUnsafe
    } else if !d.needs_execution {
        PolicyReviewStatus::ExtractionOnly
    } else if !d.metadata_loaded {
        PolicyReviewStatus::MetadataMissing
    } else if !list_has(cfg.allow_packages.deep_view(), d.name@) {
        PolicyReviewStatus::NeedsReview
    } else {
        let needed = suggestable(d.output_candidates@);
        let allowed = slashed(cfg.spec_outputs_for(d.name@));
        if needed.len() == 0 {
            PolicyReviewStatus::NeedsReview
        } else if forall|i: int| 0 <= i < needed.len() ==> list_has(allowed, #[trigger] needed[i]) {
            PolicyReviewStatus::Allowed
        } else {
            PolicyReviewStatus::PartialCoverage
        }
    }
}

impl PackageDiscovery {
    /// Safe candidate paths suitable for a suggested declared_outputs list.
    pub fn suggestable_outputs(&self) -> (r: Vec<String>)
        ensures
            r.deep_view() == suggestable(self.output_candidates@),
    {
        suggestable_paths(&self.output_candidates)
    }

    /// Compare discovery against the current execution config.
    pub fn review_against(&self, cfg: &ExecutionConfig) -> (r: PolicyReviewStatus)
        requires
            cfg.declared_outputs.wf(),
        ensures
            r == review_spec(*self, *cfg),
    {
        if self.class == ExecNeedClass::UnsupportedUnsafe || self.blocked_unsafe {
            return PolicyReviewStatus::BlockedUnsafe;
        }
        if !self.needs_execution {
            return PolicyReviewStatus::ExtractionOnly;
        }
        if !self.metadata_loaded {
            return PolicyReviewStatus::MetadataMissing;
        }
        if !cfg.package_allowed(self.name.as_str()) {
            return PolicyReviewStatus::NeedsReview;
        }
        let outs = cfg.outputs_for(self.name.as_str());
        let ghost allowed = slashed(cfg.spec_outputs_for(self.name@));
        let mut norm: Vec<String> = Vec::new();
        let mut k: usize = 0;
        while k < outs.len()
            invariant
                k <= outs.len(),
                outs.deep_view() == cfg.spec_outputs_for(self.name@),
                allowed.len() == outs.len(),
                forall|j: int| 0 <= j < outs.len() ==> #[trigger] allowed[j] == replace_all(
                    outs.deep_view()[j],
                    seq!['\\'],
                    seq!['/'],
                ),
                norm@.len() == k,
                forall|j: int| 0 <= j < k ==> #[trigger] norm@[j]@ == allowed[j],
            decreases outs.len() - k,
        {
            let oc = chars_of(outs[k].as_str());
            let nc = replace_char(&oc, '\\', '/');
            assert(outs.deep_view()[k as int] == outs@[k as int]@);
            norm.push(string_of(&nc));
            k += 1;
        }
        assert(norm.deep_view() =~= allowed);
        let needed = self.suggestable_outputs();
        if needed.len() == 0 {
            return PolicyReviewStatus::NeedsReview;
        }
        let mut i: usize = 0;
        while i < needed.len()
            invariant
                i <= needed.len(),
                needed.deep_view() == suggestable(self.output_candidates@),
                norm.deep_view() == allowed,
                allowed == slashed(cfg.spec_outputs_for(self.name@)),
                !(self.class == ExecNeedClass::UnsupportedUnsafe || self.blocked_unsafe),
                self.needs_execution,
                self.metadata_loaded,
                list_has(cfg.allow_packages.deep_view(), self.name@),
                needed.len() > 0,
                forall|j: int| 0 <= j < i ==> list_has(allowed, #[trigger] needed.deep_view()[j]),
            decreases needed.len() - i,
        {
            if !vec_has(&norm, needed[i].as_str()) {
                assert(!list_has(allowed, suggestable(self.output_candidates@)[i as int]));
                return PolicyReviewStatus::PartialCoverage;
            }
            i += 1;
        }
        PolicyReviewStatus::Allowed
    }
}

// ---------------------------------------------------------------------------
// Classification
// ---------------------------------------------------------------------------

/// Names that look like native addons.
pub open spec fn native_name(l: Seq<char>) -> bool {
    crate::text::has_sub(l, "sqlite3"@) || crate::text::has_sub(l, "bcrypt"@)
        || crate::text::has_sub(l, "fsevents"@) || crate::text::has_sub(l, "sharp"@)
        || crate::text::has_sub(l, "node-sass"@) || crate::text::ends_with(l, "-native"@)
}

/// Names that are never executed.
pub open spec fn unsafe_name(l: Seq<char>) -> bool {
    crate::text::has_sub(l, "electron-chromedriver"@) || crate::text::ends_with(
        l,
        "-installer-script"@,
    )
}

/// Classification of a discovered package from its lower-cased name, whether
/// it declares lifecycle scripts, its `gypfile` flag and the unsafe-script verdict.
pub open spec fn classify_spec(name_l: Seq<char>, has_scripts: bool, gypfile: bool, unsafe_script: bool) -> ExecNeedClass {
    if unsafe_script || unsafe_name(name_l) {
        ExecNeedClass::UnsupportedUnsafe
    } else if gypfile || native_name(name_l) {
        ExecNeedClass::NativeBuild
    } else if has_scripts {
        ExecNeedClass::GeneratedFiles
    } else {
        ExecNeedClass::ExtractionOnly
    }
}

/// Whether a lower-cased package name looks native.
pub fn looks_native_name(name: &str) -> (r: bool)
    ensures
        r == native_name(name@),
{
    crate::text::str_contains(name, "sqlite3") || crate::text::str_contains(name, "bcrypt")
        || crate::text::str_contains(name, "fsevents") || crate::text::str_contains(name, "sharp")
        || crate::text::str_contains(name, "node-sass") || crate::text::str_ends_with(
        name,
        "-native",
    )
}

/// Whether a lower-cased package name is one that is never executed.
pub fn looks_unsafe_name(name: &str) -> (r: bool)
    ensures
        r == unsafe_name(name@),
{
    crate::text::str_contains(name, "electron-chromedriver") || crate::text::str_ends_with(
        name,
        "-installer-script",
    )
}

/// Classify a discovered package.
pub fn classify_discovery(name_l: &str, has_scripts: bool, gypfile: bool, unsafe_script: bool) -> (r: ExecNeedClass)
    ensures
        r == classify_spec(name_l@, has_scripts, gypfile, unsafe_script),
{
    if unsafe_script || looks_unsafe_name(name_l) {
        return ExecNeedClass::UnsupportedUnsafe;
    }
    if gypfile || looks_native_name(name_l) {
        return ExecNeedClass::NativeBuild;
    }
    if has_scripts {
        return ExecNeedClass::GeneratedFiles;
    }
    ExecNeedClass::ExtractionOnly
}

/// Debug rendering of a list of names: `["a", "b"]`.
pub open spec fn debug_list(names: Seq<Seq<char>>) -> Seq<char>
    decreases names.len(),
{
    if names.len() == 0 {
        "[]"@
    } else {
        debug_list_items(names) + "]"@
    }
}

/// `[` followed by the quoted items separated by `, ` (no closing bracket).
pub open spec fn debug_list_items(names: Seq<Seq<char>>) -> Seq<char>
    decreases names.len(),
{
    if names.len() == 0 {
        "["@
    } else if names.len() == 1 {
        "["@ + debug_quoted(names[0])
    } else {
        debug_list_items(names.drop_last()) + ", "@ + debug_quoted(names.last())
    }
}

/// Debug rendering of a list of strings.
pub fn debug_names(names: &Vec<String>) -> (r: String)
    ensures
        r@ == debug_list(names.deep_view()),
{
    if names.len() == 0 {
        return own("[]");
    }
    let mut out = chars_of("[");
    let mut i: usize = 0;
    while i < names.len()
        invariant
            i <= names.len(),
            names.len() > 0,
            i > 0 ==> out@ == debug_list_items(names.deep_view().take(i as int)),
            i == 0 ==> out@ == "["@,
        decreases names.len() - i,
    {
        assert(names.deep_view().take(i + 1).drop_last() =~= names.deep_view().take(i as int));
        if i > 0 {
            extend_str(&mut out, ", ");
        }
        extend_str(&mut out, debug_str(names[i].as_str()).as_str());
        i += 1;
    }
    assert(names.deep_view().take(names.len() as int) =~= names.deep_view());
    extend_str(&mut out, "]");
    string_of(&out)
}

/// Names of the discovered scripts.
pub open spec fn script_names(s: Seq<DiscoveredScript>) -> Seq<Seq<char>> {
    s.map_values(|d: DiscoveredScript| d.name@)
}

/// Number of safe candidates.
pub open spec fn safe_count(cs: Seq<OutputCandidate>) -> nat
    decreases cs.len(),
{
    if cs.len() == 0 {
        0
    } else {
        safe_count(cs.drop_last()) + if cs.last().safe {
            1nat
        } else {
            0nat
        }
    }
}

/// Human-readable rationale of a discovery.
pub open spec fn reason_spec(class: ExecNeedClass, scripts: Seq<DiscoveredScript>, cs: Seq<OutputCandidate>, unsafe_script: bool) -> Seq<char> {
    if unsafe_script {
        "static analysis flagged install script as unsafe — never auto-approved"@
    } else {
        match class {
            ExecNeedClass::UnsupportedUnsafe => "classified unsupported/unsafe — never auto-executed"@,
            ExecNeedClass::NativeBuild => "native/gyp package; scripts="@ + debug_list(
                script_names(scripts),
            ) + "; safe_output_candidates="@ + decimal(safe_count(cs)),
            ExecNeedClass::GeneratedFiles => "lifecycle scripts "@ + debug_list(
                script_names(scripts),
            ) + "; safe_output_candidates="@ + decimal(safe_count(cs))
                + " (candidates ≠ allowed)"@,
            ExecNeedClass::ExtractionOnly => "extraction-only"@,
            ExecNeedClass::RuntimeInstall => "runtime install mutation"@,
        }
    }
}

fn count_safe(cs: &Vec<OutputCandidate>) -> (n: usize)
    ensures
        n == safe_count(cs@),
{
    let mut n: usize = 0;
    let mut i: usize = 0;
    assert(cs@.take(0) =~= Seq::<OutputCandidate>::empty());
    while i < cs.len()
        invariant
            i <= cs.len(),
            n == safe_count(cs@.take(i as int)),
            n <= i,
        decreases cs.len() - i,
    {
        assert(cs@.take(i + 1).drop_last() =~= cs@.take(i as int));
        if cs[i].safe {
            n += 1;
        }
        i += 1;
    }
    assert(cs@.take(cs.len() as int) =~= cs@);
    n
}

fn names_of(scripts: &Vec<DiscoveredScript>) -> (r: Vec<String>)
    ensures
        r.deep_view() == script_names(scripts@),
{
    let mut out: Vec<String> = Vec::new();
    let mut i: usize = 0;
    while i < scripts.len()
        invariant
            i <= scripts.len(),
            out@.len() == i,
            forall|j: int| 0 <= j < i ==> #[trigger] out@[j]@ == scripts@[j].name@,
        decreases scripts.len() - i,
    {
        let c = scripts[i].name.clone();
        out.push(c);
        i += 1;
    }
    assert(out.deep_view() =~= script_names(scripts@));
    out
}

/// Rationale text for a discovery.
pub fn discovery_reason(class: ExecNeedClass, scripts: &Vec<DiscoveredScript>, candidates: &Vec<OutputCandidate>, unsafe_script: bool) -> (r: String)
    ensures
        r@ == reason_spec(class, scripts@, candidates@, unsafe_script),
{
    if unsafe_script {
        return own("static analysis flagged install script as unsafe — never auto-approved");
    }
    match class {
        ExecNeedClass::UnsupportedUnsafe => own("classified unsupported/unsafe — never auto-executed"),
        ExecNeedClass::NativeBuild => {
            let names = names_of(scripts);
            let mut m = chars_of("native/gyp package; scripts=");
            extend_str(&mut m, debug_names(&names).as_str());
            extend_str(&mut m, "; safe_output_candidates=");
            extend_str(&mut m, decimal_string(count_safe(candidates) as u64).as_str());
            string_of(&m)
        },
        ExecNeedClass::GeneratedFiles => {
            let names = names_of(scripts);
            let mut m = chars_of("lifecycle scripts ");
            extend_str(&mut m, debug_names(&names).as_str());
            extend_str(&mut m, "; safe_output_candidates=");
            extend_str(&mut m, decimal_string(count_safe(candidates) as u64).as_str());
            extend_str(&mut m, " (candidates ≠ allowed)");
            string_of(&m)
        },
        ExecNeedClass::ExtractionOnly => own("extraction-only"),
        ExecNeedClass::RuntimeInstall => own("runtime install mutation"),
    }
}

// ---------------------------------------------------------------------------
// Discovery of one package
// ---------------------------------------------------------------------------

/// node-pre-gyp `binary` fields of package.json used by discovery.
#[derive(Debug, Clone, PartialEq, Eq)]
pub struct BinaryField {
    /// `binary.module_name`.
    pub module_name: Option<String>,
    /// `binary.module_dir`.
    pub module_dir: Option<String>,
}

/// The slice of package.json that discovery reads (never executed).
#[derive(Debug)]
pub struct PackageMeta {
    /// `name`.
    pub name: Option<String>,
    /// `scripts` entries whose values are strings.
    pub scripts: TextMap<String>,
    /// `binary`, when present.
    pub binary: Option<BinaryField>,
    /// String entries of `weave.declaredOutputs`.
    pub weave_declared_outputs: Vec<String>,
    /// `gypfile` (false when absent).
    pub gypfile: bool,
}

/// The items of the array at `weave.declaredOutputs`.
pub open spec fn declared_output_items(v: JsonValue) -> Option<JsonValue> {
    json_get_in(json_get(v, "weave"@), "declaredOutputs"@)
}

/// What discovery reads of a parsed `package.json`.
pub fn package_meta_of(v: &JsonValue) -> (r: PackageMeta)
    ensures
        opt_view(r.name) == json_text(json_get(*v, "name"@)),
        r.scripts.wf(),
        forall|q: Seq<char>| #[trigger] r.scripts.spec_get(q) == json_text_map(json_get(*v, "scripts"@), q),
        match json_get(*v, "binary"@) {
            None => r.binary.is_none(),
            Some(b) => r.binary matches Some(m) && opt_view(m.module_name) == json_text(json_get(b, "module_name"@))
                && opt_view(m.module_dir) == json_text(json_get(b, "module_path"@)),
        },
        r.weave_declared_outputs.deep_view() == json_text_list(declared_output_items(*v)),
        r.gypfile == json_flag(json_get(*v, "gypfile"@)),
{
    let binary = match v.get("binary") {
        Some(b) => Some(BinaryField { module_name: b.text_at("module_name"), module_dir: b.text_at("module_path") }),
        None => None,
    };
    let outputs = match v.get("weave") {
        Some(w) => w.text_list_at("declaredOutputs"),
        None => {
            let e: Vec<String> = Vec::new();
            assert(e.deep_view() =~= Seq::<Seq<char>>::empty());
            e
        },
    };
    PackageMeta {
        name: v.text_at("name"),
        scripts: v.text_map_at("scripts"),
        binary,
        weave_declared_outputs: outputs,
        gypfile: v.flag_at("gypfile"),
    }
}

/// The files of a package directory that discovery reads.
#[derive(Debug)]
pub struct PackageFiles {
    /// Final component of the package directory (name fallback).
    pub dir_name: String,
    /// `binding.gyp` text when it is a file (empty when unreadable).
    pub binding_gyp: Option<String>,
    /// `binding.gyp.js` text when it is a file (empty when unreadable).
    pub binding_gyp_js: Option<String>,
    /// `install.js` text when readable.
    pub install_js: Option<String>,
    /// `scripts/install.js` text when readable.
    pub scripts_install_js: Option<String>,
    /// Readable files named by `node <file>` lifecycle scripts, by that name.
    pub script_sources: TextMap<String>,
}

/// A discovered script by its plain values.
pub open spec fn script_view(d: DiscoveredScript) -> (Seq<char>, Seq<char>, bool, Option<Seq<char>>) {
    (d.name@, d.body@, d.unsafe_body, opt_view(d.unsafe_reason))
}

/// Discovered scripts by their plain values.
pub open spec fn script_views(s: Seq<DiscoveredScript>) -> Seq<(Seq<char>, Seq<char>, bool, Option<Seq<char>>)> {
    s.map_values(|d: DiscoveredScript| script_view(d))
}

/// The install-family lifecycle names, in the order they run.
pub open spec fn lifecycle_names() -> Seq<Seq<char>> {
    seq!["preinstall"@, "install"@, "postinstall"@, "prepare"@]
}

/// Scripts found in `scripts` under `names`, with their static verdicts.
pub open spec fn found_scripts(scripts: TextMap<String>, names: Seq<Seq<char>>) -> Seq<(Seq<char>, Seq<char>, bool, Option<Seq<char>>)>
    decreases names.len(),
{
    if names.len() == 0 {
        Seq::empty()
    } else {
        let prev = found_scripts(scripts, names.drop_last());
        match scripts.spec_get(names.last()) {
            Some(b) => prev.push(
                (names.last(), b, script_unsafe_reason(b).is_some(), script_unsafe_reason(b)),
            ),
            None => prev,
        }
    }
}

/// Paths tagged with one source.
pub open spec fn tagged(paths: Seq<Seq<char>>, source: OutputCandidateSource) -> Seq<(Seq<char>, OutputCandidateSource)> {
    paths.map_values(|p: Seq<char>| (p, source))
}

/// What a `binding.gyp`-like file contributes: its target's addon, or the
/// broad glob when no acceptable target is named.
pub open spec fn gyp_found(content: Option<String>) -> Seq<(Seq<char>, OutputCandidateSource)> {
    match content {
        None => Seq::empty(),
        Some(t) => match gyp_target(t@) {
            Some(n) => seq![("build/Release/"@ + n + ".node"@, OutputCandidateSource::BindingGyp)],
            None => seq![("build/Release/*.node"@, OutputCandidateSource::BindingGyp)],
        },
    }
}

/// `module_dir` without leading `./` and trailing `/`.
pub open spec fn module_base(p: Seq<char>) -> Seq<char> {
    trim_end_matches(trim_start_matches(p, "./"@), "/"@)
}

/// What the `binary` field contributes.
pub open spec fn binary_found(b: Option<BinaryField>) -> Seq<(Seq<char>, OutputCandidateSource)> {
    match b {
        Some(bf) => match (bf.module_name, bf.module_dir) {
            (Some(m), Some(p)) => seq![
                (module_base(p@) + "/"@ + m@ + ".node"@, OutputCandidateSource::PackageJsonBinary),
            ],
            _ => Seq::empty(),
        },
        None => Seq::empty(),
    }
}

/// One path when `c` holds.
pub open spec fn found_if(c: bool, p: Seq<char>, source: OutputCandidateSource) -> Seq<(Seq<char>, OutputCandidateSource)> {
    if c {
        seq![(p, source)]
    } else {
        Seq::empty()
    }
}

/// Well-known package name patterns (lower-cased name).
pub open spec fn name_found(l: Seq<char>) -> Seq<(Seq<char>, OutputCandidateSource)> {
    let k = OutputCandidateSource::KnownPackagePattern;
    found_if(l == "esbuild"@ || starts_with(l, "@esbuild/"@), "bin/esbuild"@, k) + found_if(
        l == "exec-gen"@ || ends_with(l, "/exec-gen"@),
        "generated/hello.txt"@,
        k,
    ) + found_if(has_sub(l, "sqlite3"@), "build/Release/node_sqlite3.node"@, k) + found_if(
        l == "bcrypt"@ || ends_with(l, "/bcrypt"@),
        "lib/binding/bcrypt_lib.node"@,
        k,
    )
}

/// The file a `node <file>` script runs.
pub open spec fn script_entry_spec(body: Seq<char>) -> Option<Seq<char>> {
    if starts_with(body, "node "@) {
        Some(trim(body.skip(5)))
    } else {
        None
    }
}

/// Static write hints in an optional source text.
pub open spec fn source_found(c: Option<Seq<char>>) -> Seq<(Seq<char>, OutputCandidateSource)> {
    match c {
        Some(t) => tagged(static_write_hints_spec(t), OutputCandidateSource::InstallScriptHint),
        None => Seq::empty(),
    }
}

/// What one discovered script contributes: hints in its body, then hints in
/// the file it runs when that file was read.
pub open spec fn script_found(body: Seq<char>, sources: TextMap<String>) -> Seq<(Seq<char>, OutputCandidateSource)> {
    tagged(static_write_hints_spec(body), OutputCandidateSource::InstallScriptHint) + match script_entry_spec(body) {
        Some(rel) => source_found(sources.spec_get(rel)),
        None => Seq::empty(),
    }
}

/// What all discovered scripts contribute, in order.
pub open spec fn scripts_found(ss: Seq<DiscoveredScript>, sources: TextMap<String>) -> Seq<(Seq<char>, OutputCandidateSource)>
    decreases ss.len(),
{
    if ss.len() == 0 {
        Seq::empty()
    } else {
        scripts_found(ss.drop_last(), sources) + script_found(ss.last().body@, sources)
    }
}

/// Every path discovery finds for a package, in the order it looks.
pub open spec fn found_paths(meta: PackageMeta, files: PackageFiles, name_l: Seq<char>, ss: Seq<DiscoveredScript>) -> Seq<(Seq<char>, OutputCandidateSource)> {
    gyp_found(files.binding_gyp) + gyp_found(files.binding_gyp_js) + found_if(
        meta.gypfile && files.binding_gyp.is_none(),
        "build/Release/*.node"@,
        OutputCandidateSource::BindingGyp,
    ) + binary_found(meta.binary) + tagged(
        meta.weave_declared_outputs.deep_view(),
        OutputCandidateSource::PackageWeaveHint,
    ) + name_found(name_l) + scripts_found(ss, files.script_sources) + source_found(
        opt_view(files.install_js),
    ) + source_found(opt_view(files.scripts_install_js))
}

/// Some discovered script body was flagged unsafe.
pub open spec fn any_unsafe(ss: Seq<DiscoveredScript>) -> bool {
    exists|i: int| 0 <= i < ss.len() && ss[i].unsafe_body
}

/// Whether discovery judges execution necessary.
pub open spec fn needs_execution_spec(class: ExecNeedClass, blocked: bool, has_scripts: bool, meta: PackageMeta, files: PackageFiles) -> bool {
    !blocked && (class == ExecNeedClass::GeneratedFiles || class == ExecNeedClass::NativeBuild
        || class == ExecNeedClass::RuntimeInstall || has_scripts || meta.gypfile
        || files.binding_gyp.is_some() || files.binding_gyp_js.is_some())
}

/// The file a `node <file>` lifecycle script runs, if it is one.
pub fn script_entry(body: &str) -> (r: Option<String>)
    ensures
        opt_view(r) == script_entry_spec(body@),
{
    let b = chars_of(body);
    let pre = chars_of("node ");
    proof {
        reveal_strlit("node ");
    }
    if crate::text::starts_with_chars(&b, &pre) {
        let rest = crate::text::skip_chars(&b, 5);
        Some(string_of(&crate::text::trim_chars(&rest)))
    } else {
        None
    }
}

fn push_path(out: &mut Vec<OutputCandidate>, path: &str, source: OutputCandidateSource)
    ensures
        cand_views(final(out)@) == collect_onto(cand_views(old(out)@), seq![(path@, source)]),
{
    let ghost before = cand_views(out@);
    push_candidate(out, path, source);
    assert(seq![(path@, source)].drop_last() =~= Seq::<(Seq<char>, OutputCandidateSource)>::empty());
    assert(collect_onto(before, Seq::<(Seq<char>, OutputCandidateSource)>::empty()) == before);
}

fn push_paths(out: &mut Vec<OutputCandidate>, paths: &Vec<String>, source: OutputCandidateSource)
    ensures
        cand_views(final(out)@) == collect_onto(cand_views(old(out)@), tagged(paths.deep_view(), source)),
{
    let ghost base = cand_views(out@);
    let mut i: usize = 0;
    assert(tagged(paths.deep_view(), source).take(0) =~= Seq::<(Seq<char>, OutputCandidateSource)>::empty());
    while i < paths.len()
        invariant
            i <= paths.len(),
            cand_views(out@) == collect_onto(base, tagged(paths.deep_view(), source).take(i as int)),
        decreases paths.len() - i,
    {
        let ghost t = tagged(paths.deep_view(), source);
        assert(t.take(i + 1).drop_last() =~= t.take(i as int));
        assert(t.take(i + 1).last() == (paths@[i as int]@, source));
        push_candidate(out, paths[i].as_str(), source);
        i += 1;
    }
    assert(tagged(paths.deep_view(), source).take(paths.len() as int) =~= tagged(paths.deep_view(), source));
}

fn push_if(out: &mut Vec<OutputCandidate>, c: bool, path: &str, source: OutputCandidateSource)
    ensures
        cand_views(final(out)@) == collect_onto(cand_views(old(out)@), found_if(c, path@, source)),
{
    if c {
        push_path(out, path, source);
    }
}

fn push_gyp(out: &mut Vec<OutputCandidate>, content: &Option<String>)
    ensures
        cand_views(final(out)@) == collect_onto(cand_views(old(out)@), gyp_found(*content)),
{
    match content {
        None => {},
        Some(t) => match crate::scan::parse_gyp_target_name(t.as_str()) {
            Some(n) => {
                let mut p = chars_of("build/Release/");
                extend_str(&mut p, n.as_str());
                extend_str(&mut p, ".node");
                push_path(out, string_of(&p).as_str(), OutputCandidateSource::BindingGyp);
            },
            None => push_path(out, "build/Release/*.node", OutputCandidateSource::BindingGyp),
        },
    }
}

fn push_binary(out: &mut Vec<OutputCandidate>, b: &Option<BinaryField>)
    ensures
        cand_views(final(out)@) == collect_onto(cand_views(old(out)@), binary_found(*b)),
{
    if let Some(bf) = b {
        if let (Some(m), Some(mp)) = (&bf.module_name, &bf.module_dir) {
            let pc = chars_of(mp.as_str());
            let t1 = crate::text::trim_start_matches_chars(&pc, &chars_of("./"));
            let mut p = crate::text::trim_end_matches_chars(&t1, &chars_of("/"));
            extend_str(&mut p, "/");
            extend_str(&mut p, m.as_str());
            extend_str(&mut p, ".node");
            push_path(out, string_of(&p).as_str(), OutputCandidateSource::PackageJsonBinary);
        }
    }
}

fn push_source(out: &mut Vec<OutputCandidate>, c: &Option<String>)
    ensures
        cand_views(final(out)@) == collect_onto(cand_views(old(out)@), source_found(opt_view(*c))),
{
    if let Some(t) = c {
        let hints = crate::scan::static_write_hints(t.as_str());
        push_paths(out, &hints, OutputCandidateSource::InstallScriptHint);
    }
}

fn push_names(out: &mut Vec<OutputCandidate>, l: &str)
    ensures
        cand_views(final(out)@) == collect_onto(cand_views(old(out)@), name_found(l@)),
{
    let k = OutputCandidateSource::KnownPackagePattern;
    let ghost base = cand_views(out@);
    let ghost a = found_if(l@ == "esbuild"@ || starts_with(l@, "@esbuild/"@), "bin/esbuild"@, k);
    let ghost b = found_if(l@ == "exec-gen"@ || ends_with(l@, "/exec-gen"@), "generated/hello.txt"@, k);
    let ghost c = found_if(has_sub(l@, "sqlite3"@), "build/Release/node_sqlite3.node"@, k);
    let ghost d = found_if(l@ == "bcrypt"@ || ends_with(l@, "/bcrypt"@), "lib/binding/bcrypt_lib.node"@, k);
    push_if(out, str_eq(l, "esbuild") || crate::text::str_starts_with(l, "@esbuild/"), "bin/esbuild", k);
    push_if(out, str_eq(l, "exec-gen") || crate::text::str_ends_with(l, "/exec-gen"), "generated/hello.txt", k);
    push_if(out, crate::text::str_contains(l, "sqlite3"), "build/Release/node_sqlite3.node", k);
    push_if(out, str_eq(l, "bcrypt") || crate::text::str_ends_with(l, "/bcrypt"), "lib/binding/bcrypt_lib.node", k);
    proof {
        lemma_collect_append(base, a, b);
        lemma_collect_append(base, a + b, c);
        lemma_collect_append(base, a + b + c, d);
    }
}

fn push_scripts(out: &mut Vec<OutputCandidate>, ss: &Vec<DiscoveredScript>, sources: &TextMap<String>)
    requires
        sources.wf(),
    ensures
        cand_views(final(out)@) == collect_onto(cand_views(old(out)@), scripts_found(ss@, *sources)),
{
    let ghost base = cand_views(out@);
    let mut i: usize = 0;
    assert(ss@.take(0) =~= Seq::<DiscoveredScript>::empty());
    while i < ss.len()
        invariant
            i <= ss.len(),
            sources.wf(),
            cand_views(out@) == collect_onto(base, scripts_found(ss@.take(i as int), *sources)),
        decreases ss.len() - i,
    {
        assert(ss@.take(i + 1).drop_last() =~= ss@.take(i as int));
        let ghost prev = scripts_found(ss@.take(i as int), *sources);
        let body = ss[i].body.as_str();
        let hints = crate::scan::static_write_hints(body);
        push_paths(out, &hints, OutputCandidateSource::InstallScriptHint);
        let ghost first = tagged(static_write_hints_spec(body@), OutputCandidateSource::InstallScriptHint);
        proof {
            lemma_collect_append(base, prev, first);
        }
        let ghost second = match script_entry_spec(body@) {
            Some(rel) => source_found(sources.spec_get(rel)),
            None => Seq::empty(),
        };
        match script_entry(body) {
            Some(rel) => {
                let src = match sources.get(rel.as_str()) {
                    Some(t) => Some(own(t.as_str())),
                    None => None,
                };
                assert(opt_view(src) == sources.spec_get(rel@));
                push_source(out, &src);
            },
            None => {},
        }
        proof {
            lemma_collect_append(base, prev + first, second);
            assert(prev + first + second =~= prev + (first + second));
        }
        i += 1;
    }
    assert(ss@.take(ss.len() as int) =~= ss@);
}

fn add_script(out: &mut Vec<DiscoveredScript>, m: &TextMap<String>, key: &str)
    requires
        m.wf(),
    ensures
        script_views(final(out)@) == match m.spec_get(key@) {
            Some(b) => script_views(old(out)@).push(
                (key@, b, script_unsafe_reason(b).is_some(), script_unsafe_reason(b)),
            ),
            None => script_views(old(out)@),
        },
{
    let ghost before = out@;
    match m.get(key) {
        Some(body) => {
            let (u, reason) = script_body_unsafe(body.as_str());
            out.push(
                DiscoveredScript { name: own(key), body: own(body.as_str()), unsafe_body: u, unsafe_reason: reason },
            );
            assert(script_views(out@) =~= script_views(before).push(script_view(out@.last())));
        },
        None => {},
    }
}

/// Discover scripts and output candidates of one package from its metadata
/// and the files read from its directory. Reads nothing itself and runs nothing.
pub fn discover_from_parts(package_dir: &str, meta: &PackageMeta, files: &PackageFiles) -> (d: PackageDiscovery)
    requires
        meta.scripts.wf(),
        files.script_sources.wf(),
    ensures
        d.package_dir@ == package_dir@,
        d.name@ == (match meta.name {
            Some(n) => n@,
            None => files.dir_name@,
        }),
        script_views(d.discovered_scripts@) == found_scripts(meta.scripts, lifecycle_names()),
        d.output_candidates@.len() == collect_onto(
            Seq::empty(),
            found_paths(*meta, *files, lower(d.name@), d.discovered_scripts@),
        ).len(),
        sorted_paths(cand_views(d.output_candidates@)),
        cand_views(d.output_candidates@).to_set() == collect_onto(
            Seq::empty(),
            found_paths(*meta, *files, lower(d.name@), d.discovered_scripts@),
        ).to_set(),
        d.class == classify_spec(
            lower(d.name@),
            d.discovered_scripts@.len() > 0,
            meta.gypfile,
            any_unsafe(d.discovered_scripts@),
        ),
        d.sandbox == (if d.class == ExecNeedClass::NativeBuild {
            ExecSandboxProfile::PrebuildFetch
        } else {
            ExecSandboxProfile::Offline
        }),
        d.blocked_unsafe == (d.class == ExecNeedClass::UnsupportedUnsafe || any_unsafe(d.discovered_scripts@)),
        d.needs_execution == needs_execution_spec(
            d.class,
            d.blocked_unsafe,
            d.discovered_scripts@.len() > 0,
            *meta,
            *files,
        ),
        d.metadata_loaded,
        d.reason@ == reason_spec(
            d.class,
            d.discovered_scripts@,
            d.output_candidates@,
            any_unsafe(d.discovered_scripts@),
        ),
{
    let name = match &meta.name {
        Some(n) => own(n.as_str()),
        None => own(files.dir_name.as_str()),
    };
    let mut scripts: Vec<DiscoveredScript> = Vec::new();
    let ghost n = lifecycle_names();
    proof {
        assert(n.take(0) =~= Seq::<Seq<char>>::empty());
        assert(script_views(scripts@) =~= found_scripts(meta.scripts, n.take(0)));
        assert(n.take(1).drop_last() =~= n.take(0));
        assert(n.take(2).drop_last() =~= n.take(1));
        assert(n.take(3).drop_last() =~= n.take(2));
        assert(n.take(4).drop_last() =~= n.take(3));
        assert(n.take(4) =~= n);
    }
    add_script(&mut scripts, &meta.scripts, "preinstall");
    assert(script_views(scripts@) == found_scripts(meta.scripts, n.take(1)));
    add_script(&mut scripts, &meta.scripts, "install");
    assert(script_views(scripts@) == found_scripts(meta.scripts, n.take(2)));
    add_script(&mut scripts, &meta.scripts, "postinstall");
    assert(script_views(scripts@) == found_scripts(meta.scripts, n.take(3)));
    add_script(&mut scripts, &meta.scripts, "prepare");
    assert(script_views(scripts@) == found_scripts(meta.scripts, n.take(4)));
    let name_l = string_of(&crate::text::lower_chars(&chars_of(name.as_str())));
    let ghost nl = name_l@;
    let mut out: Vec<OutputCandidate> = Vec::new();
    let ghost e = Seq::<CandView>::empty();
    assert(cand_views(out@) =~= e);
    let ghost s1 = gyp_found(files.binding_gyp);
    let ghost s2 = gyp_found(files.binding_gyp_js);
    let ghost s3 = found_if(meta.gypfile && files.binding_gyp.is_none(), "build/Release/*.node"@, OutputCandidateSource::BindingGyp);
    let ghost s4 = binary_found(meta.binary);
    let ghost s5 = tagged(meta.weave_declared_outputs.deep_view(), OutputCandidateSource::PackageWeaveHint);
    let ghost s6 = name_found(nl);
    let ghost s7 = scripts_found(scripts@, files.script_sources);
    let ghost s8 = source_found(opt_view(files.install_js));
    let ghost s9 = source_found(opt_view(files.scripts_install_js));
    push_gyp(&mut out, &files.binding_gyp);
    push_gyp(&mut out, &files.binding_gyp_js);
    push_if(&mut out, meta.gypfile && files.binding_gyp.is_none(), "build/Release/*.node", OutputCandidateSource::BindingGyp);
    push_binary(&mut out, &meta.binary);
    push_paths(&mut out, &meta.weave_declared_outputs, OutputCandidateSource::PackageWeaveHint);
    push_names(&mut out, name_l.as_str());
    push_scripts(&mut out, &scripts, &files.script_sources);
    push_source(&mut out, &files.install_js);
    push_source(&mut out, &files.scripts_install_js);
    proof {
        lemma_collect_append(e, s1, s2);
        lemma_collect_append(e, s1 + s2, s3);
        lemma_collect_append(e, s1 + s2 + s3, s4);
        lemma_collect_append(e, s1 + s2 + s3 + s4, s5);
        lemma_collect_append(e, s1 + s2 + s3 + s4 + s5, s6);
        lemma_collect_append(e, s1 + s2 + s3 + s4 + s5 + s6, s7);
        lemma_collect_append(e, s1 + s2 + s3 + s4 + s5 + s6 + s7, s8);
        lemma_collect_append(e, s1 + s2 + s3 + s4 + s5 + s6 + s7 + s8, s9);
        assert(found_paths(*meta, *files, nl, scripts@) == s1 + s2 + s3 + s4 + s5 + s6 + s7 + s8 + s9);
        lemma_collect_distinct(e, found_paths(*meta, *files, nl, scripts@));
    }
    let candidates = sort_candidates(out);
    let mut unsafe_script = false;
    let mut i: usize = 0;
    while i < scripts.len()
        invariant
            i <= scripts.len(),
            unsafe_script == (exists|j: int| 0 <= j < i && scripts@[j].unsafe_body),
        decreases scripts.len() - i,
    {
        if scripts[i].unsafe_body {
            unsafe_script = true;
        }
        i += 1;
    }
    let class = classify_discovery(name_l.as_str(), scripts.len() > 0, meta.gypfile, unsafe_script);
    let sandbox = if class == ExecNeedClass::NativeBuild {
        ExecSandboxProfile::PrebuildFetch
    } else {
        ExecSandboxProfile::Offline
    };
    let blocked_unsafe = class == ExecNeedClass::UnsupportedUnsafe || unsafe_script;
    let needs_execution = !blocked_unsafe && (class == ExecNeedClass::GeneratedFiles || class
        == ExecNeedClass::NativeBuild || class == ExecNeedClass::RuntimeInstall || scripts.len() > 0
        || meta.gypfile || files.binding_gyp.is_some() || files.binding_gyp_js.is_some());
    let reason = discovery_reason(class, &scripts, &candidates, unsafe_script);
    PackageDiscovery {
        package_dir: own(package_dir),
        name,
        class,
        sandbox,
        needs_execution,
        discovered_scripts: scripts,
        output_candidates: candidates,
        metadata_loaded: true,
        reason,
        blocked_unsafe,
    }
}

/// A copy of a list of discovered scripts.
pub fn copy_scripts(v: &Vec<DiscoveredScript>) -> (r: Vec<DiscoveredScript>)
    ensures
        script_views(r@) == script_views(v@),
{
    let mut out: Vec<DiscoveredScript> = Vec::new();
    let mut i: usize = 0;
    while i < v.len()
        invariant
            i <= v@.len(),
            out@.len() == i,
            forall|j: int| 0 <= j < i ==> script_view(#[trigger] out@[j]) == script_view(v@[j]),
        decreases v@.len() - i,
    {
        let s = &v[i];
        out.push(
            DiscoveredScript {
                name: own(s.name.as_str()),
                body: own(s.body.as_str()),
                unsafe_body: s.unsafe_body,
                unsafe_reason: crate::text::copy_opt(&s.unsafe_reason),
            },
        );
        i += 1;
    }
    assert(script_views(out@) =~= script_views(v@));
    out
}

/// A copy of a list of candidates.
pub fn copy_candidates(v: &Vec<OutputCandidate>) -> (r: Vec<OutputCandidate>)
    ensures
        cand_views(r@) == cand_views(v@),
{
    let mut out: Vec<OutputCandidate> = Vec::new();
    let mut i: usize = 0;
    while i < v.len()
        invariant
            i <= v@.len(),
            out@.len() == i,
            forall|j: int| 0 <= j < i ==> cand_view(#[trigger] out@[j]) == cand_view(v@[j]),
        decreases v@.len() - i,
    {
        let c = &v[i];
        out.push(
            OutputCandidate {
                path: own(c.path.as_str()),
                source: c.source,
                safe: c.safe,
                reject_reason: crate::text::copy_opt(&c.reject_reason),
            },
        );
        i += 1;
    }
    assert(cand_views(out@) =~= cand_views(v@));
    out
}

/// Candidates with equal plain values propose the same outputs.
pub proof fn lemma_suggestable_views(a: Seq<OutputCandidate>, b: Seq<OutputCandidate>)
    requires
        cand_views(a) == cand_views(b),
    ensures
        suggestable(a) == suggestable(b),
    decreases a.len(),
{
    assert(a.len() == cand_views(a).len());
    assert(b.len() == cand_views(b).len());
    if a.len() > 0 {
        assert forall|i: int| 0 <= i < a.len() - 1 implies cand_views(a.drop_last())[i] == cand_views(b.drop_last())[i] by {
            assert(cand_views(a)[i] == cand_views(b)[i]);
        }
        assert(cand_views(a.drop_last()) =~= cand_views(b.drop_last()));
        assert(cand_view(a.last()) == cand_views(a)[a.len() - 1]);
        assert(cand_view(b.last()) == cand_views(b)[b.len() - 1]);
        lemma_suggestable_views(a.drop_last(), b.drop_last());
    }
}

/// Where discovery looks for the package at `key` (named `name`) under the
/// project at `root`, in order: inside the candidate tree, then in the live
/// `node_modules`. The first holding a `package.json` is used.
pub open spec fn discovery_dirs_spec(root: Seq<char>, key: Seq<char>, name: Option<Seq<char>>) -> (Seq<char>, Seq<char>) {
    let in_nm = starts_with(key, "node_modules/"@);
    let cand = if in_nm {
        crate::paths::path_push(crate::paths::path_push(root, ".weave/candidate"@), key)
    } else {
        match name {
            Some(n) => crate::paths::path_push(crate::paths::path_push(root, ".weave/candidate/node_modules"@), n),
            None => crate::paths::path_push(crate::paths::path_push(root, ".weave/candidate"@), key),
        }
    };
    let live = if in_nm {
        crate::paths::path_push(root, key)
    } else {
        match name {
            Some(n) => crate::paths::path_push(crate::paths::path_push(root, "node_modules"@), n),
            None => crate::paths::path_push(crate::paths::path_push(root, "node_modules"@), key),
        }
    };
    (cand, live)
}

/// The two directories discovery tries for a package, in order.
pub fn discovery_dir_candidates(root: &str, key: &str, name: Option<&str>) -> (r: (String, String))
    ensures
        (r.0@, r.1@) == discovery_dirs_spec(
            root@,
            key@,
            match name {
                Some(n) => Some(n@),
                None => None,
            },
        ),
{
    let in_nm = crate::text::str_starts_with(key, "node_modules/");
    let mut cand = chars_of(root);
    let mut live = chars_of(root);
    if in_nm {
        crate::paths::push_path(&mut cand, &chars_of(".weave/candidate"));
        crate::paths::push_path(&mut cand, &chars_of(key));
        crate::paths::push_path(&mut live, &chars_of(key));
    } else {
        match name {
            Some(n) => {
                crate::paths::push_path(&mut cand, &chars_of(".weave/candidate/node_modules"));
                crate::paths::push_path(&mut cand, &chars_of(n));
                crate::paths::push_path(&mut live, &chars_of("node_modules"));
                crate::paths::push_path(&mut live, &chars_of(n));
            },
            None => {
                crate::paths::push_path(&mut cand, &chars_of(".weave/candidate"));
                crate::paths::push_path(&mut cand, &chars_of(key));
                crate::paths::push_path(&mut live, &chars_of("node_modules"));
                crate::paths::push_path(&mut live, &chars_of(key));
            },
        }
    }
    (string_of(&cand), string_of(&live))
}

} // verus!
