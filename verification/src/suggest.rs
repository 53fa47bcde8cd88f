//! Reviewable execution-policy suggestions built from discoveries and native
//! prebuild reports. A suggestion never enables execution; merging one into a
//! configuration never changes `enabled` or `profile`.
use vstd::prelude::*;
use crate::config::{ExecutionConfig, PrebuildFetchSpec};
use crate::discovery::{any_unsafe, debug_list, debug_names, suggestable, ExecNeedClass, PackageDiscovery};
use crate::prebuild::{
    draft_views, drafts_of, prebuild_toml, render_prebuild_suggestion_toml, req_views,
    suggestable_prebuild_fetches, DraftModel, NativePrebuildReport, SuggestedPrebuildFetch,
};
use crate::text::{chars_of, copy_strings, debug_quoted, extend_str, opt_view, own, string_of, vec_has};
use crate::textmap::{lemma_is_sorted_set, sort_dedup, sort_strings, sorted_list, sorted_set, TextMap};

verus! {

/// Package excluded from automatic suggestion.
#[derive(Debug, PartialEq, Eq)]
pub struct BlockedPackage {
    /// Package name.
    pub name: String,
    /// Why it was not suggested.
    pub reason: String,
}

/// Suggested `[execution]` fragment for human review (never auto-enables).
#[derive(Debug)]
pub struct SuggestedExecutionPolicy {
    /// Packages proposed for allow_packages (safe discoveries only).
    pub allow_packages: Vec<String>,
    /// Proposed declared_outputs (exact safe paths only).
    pub declared_outputs: TextMap<Vec<String>>,
    /// Reviewable prebuild fetch drafts (only when URL+output+SRI established).
    pub prebuild_fetches: Vec<SuggestedPrebuildFetch>,
    /// Packages discovered but blocked from suggestion.
    pub blocked_packages: Vec<BlockedPackage>,
    /// Packages needing execution but lacking exact safe outputs.
    pub incomplete_packages: Vec<String>,
    /// Packages with native download patterns that still need manual policy.
    pub native_policy_gaps: Vec<String>,
    /// Reminder: enabled must stay a human decision.
    pub enabled_suggestion: bool,
    /// Rendered TOML fragment.
    pub toml_fragment: String,
}

// ---------------------------------------------------------------------------
// What a discovery contributes
// ---------------------------------------------------------------------------

/// The discovery is blocked outright.
pub open spec fn is_blocked(d: PackageDiscovery) -> bool {
    d.blocked_unsafe || d.class == ExecNeedClass::UnsupportedUnsafe
}

/// The discovery is considered for allowlisting (needs execution, no unsafe script).
pub open spec fn considered(d: PackageDiscovery) -> bool {
    !is_blocked(d) && d.needs_execution && !any_unsafe(d.discovered_scripts@)
}

/// The discovery is proposed: considered, with exact safe outputs.
pub open spec fn suggests(d: PackageDiscovery) -> bool {
    considered(d) && suggestable(d.output_candidates@).len() > 0
}

/// The (name, reason) a discovery is blocked with, if any.
pub open spec fn blocked_entry(d: PackageDiscovery) -> Option<(Seq<char>, Seq<char>)> {
    if is_blocked(d) {
        Some((d.name@, d.reason@))
    } else if d.needs_execution && any_unsafe(d.discovered_scripts@) {
        Some((d.name@, "install script body flagged unsafe by static analysis"@))
    } else {
        None
    }
}

/// Blocked packages of the discoveries, in order.
pub open spec fn blocked_of(ds: Seq<PackageDiscovery>) -> Seq<(Seq<char>, Seq<char>)>
    decreases ds.len(),
{
    if ds.len() == 0 {
        Seq::empty()
    } else {
        match blocked_entry(ds.last()) {
            Some(b) => blocked_of(ds.drop_last()).push(b),
            None => blocked_of(ds.drop_last()),
        }
    }
}

/// Packages considered but without exact safe outputs, in order.
pub open spec fn incomplete_of(ds: Seq<PackageDiscovery>) -> Seq<Seq<char>>
    decreases ds.len(),
{
    if ds.len() == 0 {
        Seq::empty()
    } else if considered(ds.last()) && !suggests(ds.last()) {
        incomplete_of(ds.drop_last()).push(ds.last().name@)
    } else {
        incomplete_of(ds.drop_last())
    }
}

/// Names of the proposed packages, in order.
pub open spec fn suggested_names(ds: Seq<PackageDiscovery>) -> Seq<Seq<char>>
    decreases ds.len(),
{
    if ds.len() == 0 {
        Seq::empty()
    } else if suggests(ds.last()) {
        suggested_names(ds.drop_last()).push(ds.last().name@)
    } else {
        suggested_names(ds.drop_last())
    }
}

/// Outputs declared for `k` after the discoveries were applied to `init`.
pub open spec fn outputs_after(init: Option<Seq<Seq<char>>>, ds: Seq<PackageDiscovery>, k: Seq<char>) -> Option<Seq<Seq<char>>>
    decreases ds.len(),
{
    if ds.len() == 0 {
        init
    } else {
        let prev = outputs_after(init, ds.drop_last(), k);
        let d = ds.last();
        if suggests(d) && d.name@ == k {
            let outs = suggestable(d.output_candidates@);
            Some(
                match prev {
                    Some(e) => sorted_set(e + outs),
                    None => sorted_list(outs),
                },
            )
        } else {
            prev
        }
    }
}

/// Outputs declared for `k` after the drafts' outputs were added to `prev`.
pub open spec fn outputs_after_drafts(prev: Option<Seq<Seq<char>>>, ds: Seq<DraftModel>, k: Seq<char>) -> Option<Seq<Seq<char>>>
    decreases ds.len(),
{
    if ds.len() == 0 {
        prev
    } else {
        let p = outputs_after_drafts(prev, ds.drop_last(), k);
        let d = ds.last();
        if d.package == k {
            Some(
                match p {
                    Some(e) => if e.contains(d.output) {
                        e
                    } else {
                        e.push(d.output)
                    },
                    None => seq![d.output],
                },
            )
        } else {
            p
        }
    }
}

/// Drafts of all reports, report by report.
pub open spec fn all_drafts(rs: Seq<NativePrebuildReport>, cfg: ExecutionConfig) -> Seq<DraftModel>
    decreases rs.len(),
{
    if rs.len() == 0 {
        Seq::empty()
    } else {
        all_drafts(rs.drop_last(), cfg) + drafts_of(req_views(rs.last().requirements@), cfg)
    }
}

/// Packages of the drafts, in order.
pub open spec fn draft_packages(ds: Seq<DraftModel>) -> Seq<Seq<char>> {
    ds.map_values(|d: DraftModel| d.package)
}

/// Reports that still need manual policy, by package, in order.
pub open spec fn gap_names(rs: Seq<NativePrebuildReport>) -> Seq<Seq<char>>
    decreases rs.len(),
{
    if rs.len() == 0 {
        Seq::empty()
    } else if rs.last().needs_manual_policy {
        gap_names(rs.drop_last()).push(rs.last().package@)
    } else {
        gap_names(rs.drop_last())
    }
}

// ---------------------------------------------------------------------------
// Rendering
// ---------------------------------------------------------------------------

/// Header of a suggested `[execution]` fragment.
pub open spec fn suggestion_header() -> Seq<char> {
    "# Suggested by `weave exec suggest` — REVIEW BEFORE USE.\n# Discovery never enables execution. Keep enabled = false until intentional.\n# Plain `weave switch` stays execution-free; use --with-exec only after review.\n[execution]\nenabled = false\nprofile = \"offline\"\n"@
}

/// One `pkg = [..]` line per declared package, in key order.
pub open spec fn output_lines(es: Seq<(Seq<char>, Seq<Seq<char>>)>) -> Seq<char>
    decreases es.len(),
{
    if es.len() == 0 {
        Seq::empty()
    } else {
        output_lines(es.drop_last()) + es.last().0 + " = "@ + debug_list(es.last().1) + "\n"@
    }
}

/// The rendered `[execution]` suggestion.
pub open spec fn suggestion_toml(allow: Seq<Seq<char>>, es: Seq<(Seq<char>, Seq<Seq<char>>)>) -> Seq<char> {
    suggestion_header() + "allow_packages = "@ + debug_list(allow) + "\n"@
        + "allow_scripts = [\"install\"]\n\n"@ + "[execution.declared_outputs]\n"@ + output_lines(es)
}

/// Render the suggested `[execution]` fragment (always `enabled = false`).
pub fn render_suggestion_toml(allow_packages: &Vec<String>, declared_outputs: &TextMap<Vec<String>>) -> (r: String)
    ensures
        r@ == suggestion_toml(allow_packages.deep_view(), declared_outputs.spec_entries()),
{
    let mut out = chars_of("# Suggested by `weave exec suggest` — REVIEW BEFORE USE.\n# Discovery never enables execution. Keep enabled = false until intentional.\n# Plain `weave switch` stays execution-free; use --with-exec only after review.\n[execution]\nenabled = false\nprofile = \"offline\"\n");
    extend_str(&mut out, "allow_packages = ");
    extend_str(&mut out, debug_names(allow_packages).as_str());
    extend_str(&mut out, "\n");
    extend_str(&mut out, "allow_scripts = [\"install\"]\n\n");
    extend_str(&mut out, "[execution.declared_outputs]\n");
    let ghost head = out@;
    let ghost es = declared_outputs.spec_entries();
    let mut i: usize = 0;
    assert(out@ =~= head + output_lines(es.take(0)));
    while i < declared_outputs.len()
        invariant
            i <= es.len(),
            es == declared_outputs.spec_entries(),
            out@ == head + output_lines(es.take(i as int)),
        decreases es.len() - i,
    {
        assert(es.take(i + 1).drop_last() =~= es.take(i as int));
        let ghost before = out@;
        extend_str(&mut out, declared_outputs.key_at(i).as_str());
        extend_str(&mut out, " = ");
        extend_str(&mut out, debug_names(declared_outputs.value_at(i)).as_str());
        extend_str(&mut out, "\n");
        assert(out@ =~= before + es[i as int].0 + " = "@ + debug_list(es[i as int].1) + "\n"@);
        i += 1;
    }
    assert(es.take(es.len() as int) =~= es);
    string_of(&out)
}

// ---------------------------------------------------------------------------
// Building a suggestion
// ---------------------------------------------------------------------------

/// Blocked packages by their plain values.
pub open spec fn blocked_views(s: Seq<BlockedPackage>) -> Seq<(Seq<char>, Seq<char>)> {
    s.map_values(|b: BlockedPackage| (b.name@, b.reason@))
}

fn add_outputs(declared: &mut TextMap<Vec<String>>, name: &str, outs: &Vec<String>)
    requires
        old(declared).wf(),
    ensures
        final(declared).wf(),
        final(declared).spec_get(name@) == Some(
            match old(declared).spec_get(name@) {
                Some(e) => sorted_set(e + outs.deep_view()),
                None => sorted_list(outs.deep_view()),
            },
        ),
        forall|q: Seq<char>| q != name@ ==> final(declared).spec_get(q) == old(declared).spec_get(q),
{
    let existing = match declared.get(name) {
        Some(e) => Some(copy_strings(e)),
        None => None,
    };
    match existing {
        Some(mut e) => {
            let ghost base = e.deep_view();
            let mut j: usize = 0;
            assert(e.deep_view().to_set() =~= (base + outs.deep_view().take(0)).to_set()) by {
                assert(base + outs.deep_view().take(0) =~= base);
            }
            while j < outs.len()
                invariant
                    j <= outs@.len(),
                    e.deep_view().to_set() == (base + outs.deep_view().take(j as int)).to_set(),
                decreases outs@.len() - j,
            {
                let ghost before = e.deep_view();
                let o = outs[j].as_str();
                proof {
                    assert(base + outs.deep_view().take(j + 1) =~= (base + outs.deep_view().take(
                        j as int,
                    )).push(o@));
                    (base + outs.deep_view().take(j as int)).lemma_push_to_set_commute(o@);
                }
                if !vec_has(&e, o) {
                    e.push(own(o));
                    proof {
                        assert(e.deep_view() =~= before.push(o@));
                        before.lemma_push_to_set_commute(o@);
                    }
                } else {
                    proof {
                        let w = choose|w: int| 0 <= w < before.len() && before[w] == o@;
                        assert(before.to_set().contains(o@));
                        assert(before.to_set().insert(o@) =~= before.to_set());
                    }
                }
                j += 1;
            }
            assert(outs.deep_view().take(outs@.len() as int) =~= outs.deep_view());
            let sorted = sort_dedup(&e);
            proof {
                lemma_is_sorted_set(sorted.deep_view(), base + outs.deep_view());
            }
            declared.insert(own(name), sorted);
        },
        None => {
            declared.insert(own(name), sort_strings(outs));
        },
    }
}

fn add_draft_output(declared: &mut TextMap<Vec<String>>, package: &str, output: &str)
    requires
        old(declared).wf(),
    ensures
        final(declared).wf(),
        final(declared).spec_get(package@) == Some(
            match old(declared).spec_get(package@) {
                Some(e) => if e.contains(output@) {
                    e
                } else {
                    e.push(output@)
                },
                None => seq![output@],
            },
        ),
        forall|q: Seq<char>| q != package@ ==> final(declared).spec_get(q) == old(declared).spec_get(q),
{
    let existing = match declared.get(package) {
        Some(e) => Some(copy_strings(e)),
        None => None,
    };
    match existing {
        Some(mut e) => {
            let ghost before = e.deep_view();
            if !vec_has(&e, output) {
                e.push(own(output));
                assert(e.deep_view() =~= before.push(output@));
            }
            declared.insert(own(package), e);
        },
        None => {
            let v = vec![own(output)];
            assert(v.deep_view() =~= seq![output@]);
            declared.insert(own(package), v);
        },
    }
}

fn move_drafts(into: &mut Vec<SuggestedPrebuildFetch>, from: Vec<SuggestedPrebuildFetch>)
    ensures
        draft_views(final(into)@) == draft_views(old(into)@) + draft_views(from@),
{
    let ghost base = draft_views(into@);
    let ghost orig = draft_views(from@);
    let mut src = from;
    let total = src.len();
    let mut k: usize = 0;
    assert(draft_views(src@) =~= orig.skip(0));
    assert(draft_views(into@) =~= base + orig.take(0));
    while src.len() > 0
        invariant
            k <= orig.len(),
            orig.len() == total,
            draft_views(src@) == orig.skip(k as int),
            draft_views(into@) == base + orig.take(k as int),
        decreases src@.len(),
    {
        let ghost sv = src@;
        assert(draft_views(sv).len() == sv.len());
        let x = src.remove(0);
        proof {
            sv.remove_ensures(0);
            assert(x@ == draft_views(sv)[0]);
            assert(draft_views(sv)[0] == orig.skip(k as int)[0]);
            assert forall|q: int| 0 <= q < src@.len() implies #[trigger] draft_views(src@)[q]
                == orig.skip(k + 1)[q] by {
                assert(src@[q] == sv[q + 1]);
                assert(draft_views(sv)[q + 1] == orig.skip(k as int)[q + 1]);
            }
            assert(draft_views(src@) =~= orig.skip(k + 1));
        }
        let ghost before = into@;
        into.push(x);
        assert(draft_views(into@) =~= draft_views(before).push(x@));
        assert(orig.take(k + 1) =~= orig.take(k as int).push(orig[k as int]));
        k += 1;
    }
    assert(orig.take(k as int) =~= orig);
}

/// `r` is the suggestion for the discoveries `ds` and the native prebuild
/// reports `reports` under `current`.
pub open spec fn suggestion_of(r: SuggestedExecutionPolicy, ds: Seq<PackageDiscovery>, reports: Seq<NativePrebuildReport>, current: ExecutionConfig) -> bool {
    let drafts = all_drafts(reports, current);
    &&& r.allow_packages.deep_view() == sorted_set(
        current.allow_packages.deep_view() + suggested_names(ds) + draft_packages(drafts),
    )
    &&& r.declared_outputs.wf()
    &&& forall|k: Seq<char>|
        #[trigger] r.declared_outputs.spec_get(k) == outputs_after_drafts(
            outputs_after(current.declared_outputs.spec_get(k), ds, k),
            drafts,
            k,
        )
    &&& draft_views(r.prebuild_fetches@) == drafts
    &&& blocked_views(r.blocked_packages@) == blocked_of(ds)
    &&& r.incomplete_packages.deep_view() == incomplete_of(ds)
    &&& r.native_policy_gaps.deep_view() == sorted_set(gap_names(reports))
    &&& !r.enabled_suggestion
    &&& r.toml_fragment@ == suggestion_toml(r.allow_packages.deep_view(), r.declared_outputs.spec_entries()) + (if drafts.len()
        == 0 {
        Seq::empty()
    } else {
        "\n"@ + prebuild_toml(drafts, current.prebuild.allow_hosts.deep_view())
    })
}

/// Build a suggested policy from discoveries and native prebuild reports.
/// Never sets `enabled = true`.
pub fn suggest_execution_policy_with_prebuilds(
    discoveries: &Vec<PackageDiscovery>,
    native_reports: &Vec<NativePrebuildReport>,
    current: &ExecutionConfig,
) -> (r: SuggestedExecutionPolicy)
    requires
        current.declared_outputs.wf(),
    ensures
        suggestion_of(r, discoveries@, native_reports@, *current),
{
    let ghost ds = discoveries@;
    let ghost a0 = current.allow_packages.deep_view();
    let mut allow = copy_strings(&current.allow_packages);
    let mut declared = current.declared_outputs.duplicate();
    let mut blocked: Vec<BlockedPackage> = Vec::new();
    let mut incomplete: Vec<String> = Vec::new();
    let mut i: usize = 0;
    assert(ds.take(0) =~= Seq::<PackageDiscovery>::empty());
    assert(allow.deep_view().to_set() =~= (a0 + suggested_names(ds.take(0))).to_set()) by {
        assert(a0 + suggested_names(ds.take(0)) =~= a0);
    }
    assert(blocked_views(blocked@) =~= blocked_of(ds.take(0)));
    assert(incomplete.deep_view() =~= incomplete_of(ds.take(0)));
    while i < discoveries.len()
        invariant
            i <= ds.len(),
            ds == discoveries@,
            a0 == current.allow_packages.deep_view(),
            allow.deep_view().to_set() == (a0 + suggested_names(ds.take(i as int))).to_set(),
            declared.wf(),
            forall|k: Seq<char>|
                #[trigger] declared.spec_get(k) == outputs_after(
                    current.declared_outputs.spec_get(k),
                    ds.take(i as int),
                    k,
                ),
            blocked_views(blocked@) == blocked_of(ds.take(i as int)),
            incomplete.deep_view() == incomplete_of(ds.take(i as int)),
        decreases ds.len() - i,
    {
        let d = &discoveries[i];
        proof {
            assert(ds.take(i + 1).drop_last() =~= ds.take(i as int));
            assert(ds.take(i + 1).last() == *d);
        }
        let ghost prev_allow = allow.deep_view();
        let ghost prev_names = a0 + suggested_names(ds.take(i as int));
        if d.blocked_unsafe || d.class == ExecNeedClass::UnsupportedUnsafe {
            let ghost before = blocked@;
            blocked.push(BlockedPackage { name: own(d.name.as_str()), reason: own(d.reason.as_str()) });
            assert(blocked_views(blocked@) =~= blocked_views(before).push((d.name@, d.reason@)));
        } else if d.needs_execution {
            let mut unsafe_script = false;
            let mut q: usize = 0;
            while q < d.discovered_scripts.len()
                invariant
                    q <= d.discovered_scripts@.len(),
                    unsafe_script == (exists|j: int| 0 <= j < q && d.discovered_scripts@[j].unsafe_body),
                decreases d.discovered_scripts@.len() - q,
            {
                if d.discovered_scripts[q].unsafe_body {
                    unsafe_script = true;
                }
                q += 1;
            }
            if unsafe_script {
                let ghost before = blocked@;
                blocked.push(
                    BlockedPackage {
                        name: own(d.name.as_str()),
                        reason: own("install script body flagged unsafe by static analysis"),
                    },
                );
                assert(blocked_views(blocked@) =~= blocked_views(before).push(
                    (d.name@, "install script body flagged unsafe by static analysis"@),
                ));
            } else {
                let outs = d.suggestable_outputs();
                if outs.len() == 0 {
                    let ghost before = incomplete.deep_view();
                    incomplete.push(own(d.name.as_str()));
                    assert(incomplete.deep_view() =~= before.push(d.name@));
                } else {
                    if !vec_has(&allow, d.name.as_str()) {
                        allow.push(own(d.name.as_str()));
                        assert(allow.deep_view() =~= prev_allow.push(d.name@));
                        proof {
                            prev_allow.lemma_push_to_set_commute(d.name@);
                        }
                    } else {
                        assert(prev_allow.to_set().contains(d.name@));
                        assert(prev_allow.to_set().insert(d.name@) =~= prev_allow.to_set());
                    }
                    proof {
                        assert(a0 + suggested_names(ds.take(i + 1)) =~= prev_names.push(d.name@));
                        prev_names.lemma_push_to_set_commute(d.name@);
                    }
                    add_outputs(&mut declared, d.name.as_str(), &outs);
                }
            }
        }
        i += 1;
    }
    assert(ds.take(ds.len() as int) =~= ds);
    let allow1 = sort_dedup(&allow);
    let ghost names1 = a0 + suggested_names(ds);
    // Drafts of every report, computed against the current configuration.
    let ghost rs = native_reports@;
    let mut drafts: Vec<SuggestedPrebuildFetch> = Vec::new();
    let mut gaps: Vec<String> = Vec::new();
    let mut j: usize = 0;
    assert(rs.take(0) =~= Seq::<NativePrebuildReport>::empty());
    assert(draft_views(drafts@) =~= all_drafts(rs.take(0), *current));
    assert(gaps.deep_view() =~= gap_names(rs.take(0)));
    while j < native_reports.len()
        invariant
            j <= rs.len(),
            rs == native_reports@,
            draft_views(drafts@) == all_drafts(rs.take(j as int), *current),
            gaps.deep_view() == gap_names(rs.take(j as int)),
        decreases rs.len() - j,
    {
        let rep = &native_reports[j];
        assert(rs.take(j + 1).drop_last() =~= rs.take(j as int));
        assert(rs.take(j + 1).last() == *rep);
        if rep.needs_manual_policy {
            let ghost before = gaps.deep_view();
            gaps.push(own(rep.package.as_str()));
            assert(gaps.deep_view() =~= before.push(rep.package@));
        }
        let found = suggestable_prebuild_fetches(rep, current);
        move_drafts(&mut drafts, found);
        j += 1;
    }
    assert(rs.take(rs.len() as int) =~= rs);
    let ghost dv = draft_views(drafts@);
    let mut allow2 = allow1;
    let mut k: usize = 0;
    assert(allow2.deep_view().to_set() =~= (names1 + draft_packages(dv.take(0))).to_set()) by {
        assert(names1 + draft_packages(dv.take(0)) =~= names1);
    }
    while k < drafts.len()
        invariant
            k <= dv.len(),
            dv == draft_views(drafts@),
            allow2.deep_view().to_set() == (names1 + draft_packages(dv.take(k as int))).to_set(),
            declared.wf(),
            forall|q: Seq<char>|
                #[trigger] declared.spec_get(q) == outputs_after_drafts(
                    outputs_after(current.declared_outputs.spec_get(q), ds, q),
                    dv.take(k as int),
                    q,
                ),
        decreases dv.len() - k,
    {
        let dr = &drafts[k];
        assert(dv[k as int] == dr@);
        assert(dv.take(k + 1).drop_last() =~= dv.take(k as int));
        let ghost prev_allow = allow2.deep_view();
        let ghost prev_names = names1 + draft_packages(dv.take(k as int));
        proof {
            assert(names1 + draft_packages(dv.take(k + 1)) =~= prev_names.push(dr.spec.package@));
            prev_names.lemma_push_to_set_commute(dr.spec.package@);
        }
        if !vec_has(&allow2, dr.spec.package.as_str()) {
            allow2.push(own(dr.spec.package.as_str()));
            assert(allow2.deep_view() =~= prev_allow.push(dr.spec.package@));
            proof {
                prev_allow.lemma_push_to_set_commute(dr.spec.package@);
            }
        } else {
            assert(prev_allow.to_set().contains(dr.spec.package@));
            assert(prev_allow.to_set().insert(dr.spec.package@) =~= prev_allow.to_set());
        }
        add_draft_output(&mut declared, dr.spec.package.as_str(), dr.spec.output.as_str());
        k += 1;
    }
    assert(dv.take(dv.len() as int) =~= dv);
    let allow3 = sort_dedup(&allow2);
    proof {
        lemma_is_sorted_set(allow3.deep_view(), names1 + draft_packages(dv));
    }
    let gaps_sorted = sort_dedup(&gaps);
    let main = render_suggestion_toml(&allow3, &declared);
    let pre = render_prebuild_suggestion_toml(&drafts, &current.prebuild.allow_hosts);
    let toml_fragment = if drafts.len() == 0 {
        main
    } else {
        let mut t = chars_of(main.as_str());
        extend_str(&mut t, "\n");
        extend_str(&mut t, pre.as_str());
        string_of(&t)
    };
    proof {
        let expected = suggestion_toml(allow3.deep_view(), declared.spec_entries()) + (if drafts@.len() == 0 {
            Seq::empty()
        } else {
            "\n"@ + prebuild_toml(draft_views(drafts@), current.prebuild.allow_hosts.deep_view())
        });
        assert(toml_fragment@ =~= expected);
    }
    SuggestedExecutionPolicy {
        allow_packages: allow3,
        declared_outputs: declared,
        prebuild_fetches: drafts,
        blocked_packages: blocked,
        incomplete_packages: incomplete,
        native_policy_gaps: gaps_sorted,
        enabled_suggestion: false,
        toml_fragment,
    }
}

/// Build a suggested policy from discoveries alone. Never sets `enabled = true`.
pub fn suggest_execution_policy(discoveries: &Vec<PackageDiscovery>, current: &ExecutionConfig) -> (r: SuggestedExecutionPolicy)
    requires
        current.declared_outputs.wf(),
    ensures
        r.allow_packages.deep_view() == sorted_set(
            current.allow_packages.deep_view() + suggested_names(discoveries@),
        ),
        r.declared_outputs.wf(),
        forall|k: Seq<char>|
            #[trigger] r.declared_outputs.spec_get(k) == outputs_after(
                current.declared_outputs.spec_get(k),
                discoveries@,
                k,
            ),
        r.prebuild_fetches@.len() == 0,
        blocked_views(r.blocked_packages@) == blocked_of(discoveries@),
        r.incomplete_packages.deep_view() == incomplete_of(discoveries@),
        r.native_policy_gaps@.len() == 0,
        !r.enabled_suggestion,
        r.toml_fragment@ == suggestion_toml(
            r.allow_packages.deep_view(),
            r.declared_outputs.spec_entries(),
        ),
        suggestion_of(r, discoveries@, Seq::empty(), *current),
{
    let none: Vec<NativePrebuildReport> = Vec::new();
    let r = suggest_execution_policy_with_prebuilds(discoveries, &none, current);
    assert(none@ =~= Seq::<NativePrebuildReport>::empty());
    proof {
        let e = all_drafts(none@, *current);
        assert(e =~= Seq::<DraftModel>::empty());
        let a = current.allow_packages.deep_view() + suggested_names(discoveries@);
        assert(a + draft_packages(e) =~= a);
        assert(gap_names(none@) =~= Seq::<Seq<char>>::empty());
        lemma_is_sorted_set(Seq::<Seq<char>>::empty(), Seq::<Seq<char>>::empty());
        assert(r.native_policy_gaps.deep_view().len() == 0);
        assert(r.toml_fragment@ =~= suggestion_toml(r.allow_packages.deep_view(), r.declared_outputs.spec_entries()) + Seq::<char>::empty());
        assert forall|k: Seq<char>| #[trigger] r.declared_outputs.spec_get(k) == outputs_after(current.declared_outputs.spec_get(k), discoveries@, k) by {
            assert(outputs_after_drafts(outputs_after(current.declared_outputs.spec_get(k), discoveries@, k), e, k) == outputs_after(current.declared_outputs.spec_get(k), discoveries@, k));
        }
    }
    r
}

// ---------------------------------------------------------------------------
// Merging a suggestion into a configuration
// ---------------------------------------------------------------------------

/// A fetch spec as plain values.
pub open spec fn fetch_model(f: PrebuildFetchSpec) -> (Seq<char>, Seq<char>, Seq<char>, Seq<char>, Option<Seq<char>>, Option<Seq<char>>, Option<Seq<char>>) {
    (f.package@, f.url@, f.integrity@, f.output@, opt_view(f.node_abi), opt_view(f.os), opt_view(f.cpu))
}

/// Fetch specs as plain values.
pub open spec fn fetch_models(s: Seq<PrebuildFetchSpec>) -> Seq<(Seq<char>, Seq<char>, Seq<char>, Seq<char>, Option<Seq<char>>, Option<Seq<char>>, Option<Seq<char>>)> {
    s.map_values(|f: PrebuildFetchSpec| fetch_model(f))
}

/// The fetch spec a draft proposes.
pub open spec fn draft_fetch(d: DraftModel) -> (Seq<char>, Seq<char>, Seq<char>, Seq<char>, Option<Seq<char>>, Option<Seq<char>>, Option<Seq<char>>) {
    (d.package, d.url, d.integrity, d.output, d.node_abi, d.os, d.cpu)
}

/// Fetches after the drafts were merged: a draft is appended unless a fetch
/// for the same package, URL and output is already there.
pub open spec fn merge_fetches(
    fs: Seq<(Seq<char>, Seq<char>, Seq<char>, Seq<char>, Option<Seq<char>>, Option<Seq<char>>, Option<Seq<char>>)>,
    ds: Seq<DraftModel>,
) -> Seq<(Seq<char>, Seq<char>, Seq<char>, Seq<char>, Option<Seq<char>>, Option<Seq<char>>, Option<Seq<char>>)>
    decreases ds.len(),
{
    if ds.len() == 0 {
        fs
    } else {
        let p = merge_fetches(fs, ds.drop_last());
        let d = ds.last();
        if exists|i: int|
            0 <= i < p.len() && #[trigger] p[i].0 == d.package && p[i].1 == d.url && p[i].3
                == d.output {
            p
        } else {
            p.push(draft_fetch(d))
        }
    }
}

/// `o`, or the empty list.
pub open spec fn or_empty(o: Option<Seq<Seq<char>>>) -> Seq<Seq<char>> {
    match o {
        Some(v) => v,
        None => Seq::empty(),
    }
}

/// Outputs for `q` after the suggested entries were merged, entry by entry.
pub open spec fn merge_entries(o: Option<Seq<Seq<char>>>, es: Seq<(Seq<char>, Seq<Seq<char>>)>, q: Seq<char>) -> Option<Seq<Seq<char>>>
    decreases es.len(),
{
    if es.len() == 0 {
        o
    } else {
        let p = merge_entries(o, es.drop_last(), q);
        if es.last().0 == q {
            Some(sorted_set(or_empty(p) + es.last().1))
        } else {
            p
        }
    }
}

fn merge_outputs(declared: &mut TextMap<Vec<String>>, name: &str, outs: &Vec<String>)
    requires
        old(declared).wf(),
    ensures
        final(declared).wf(),
        final(declared).spec_get(name@) == Some(sorted_set(or_empty(old(declared).spec_get(name@)) + outs.deep_view())),
        forall|q: Seq<char>| q != name@ ==> final(declared).spec_get(q) == old(declared).spec_get(q),
{
    let mut e = match declared.get(name) {
        Some(e) => copy_strings(e),
        None => {
            let v: Vec<String> = Vec::new();
            assert(v.deep_view() =~= Seq::<Seq<char>>::empty());
            v
        },
    };
    let ghost base = e.deep_view();
    assert(base == or_empty(declared.spec_get(name@)));
    let mut j: usize = 0;
    assert(e.deep_view().to_set() =~= (base + outs.deep_view().take(0)).to_set()) by {
        assert(base + outs.deep_view().take(0) =~= base);
    }
    while j < outs.len()
        invariant
            j <= outs@.len(),
            e.deep_view().to_set() == (base + outs.deep_view().take(j as int)).to_set(),
        decreases outs@.len() - j,
    {
        let ghost before = e.deep_view();
        let o = outs[j].as_str();
        proof {
            assert(base + outs.deep_view().take(j + 1) =~= (base + outs.deep_view().take(j as int)).push(o@));
            (base + outs.deep_view().take(j as int)).lemma_push_to_set_commute(o@);
        }
        if !vec_has(&e, o) {
            e.push(own(o));
            proof {
                assert(e.deep_view() =~= before.push(o@));
                before.lemma_push_to_set_commute(o@);
            }
        } else {
            proof {
                assert(before.to_set().contains(o@));
                assert(before.to_set().insert(o@) =~= before.to_set());
            }
        }
        j += 1;
    }
    assert(outs.deep_view().take(outs@.len() as int) =~= outs.deep_view());
    let sorted = sort_dedup(&e);
    proof {
        lemma_is_sorted_set(sorted.deep_view(), base + outs.deep_view());
    }
    declared.insert(own(name), sorted);
}

pub(crate) fn has_fetch(fs: &Vec<PrebuildFetchSpec>, package: &str, url: &str, output: &str) -> (r: bool)
    ensures
        r == (exists|i: int|
            0 <= i < fs@.len() && #[trigger] fetch_models(fs@)[i].0 == package@ && fetch_models(fs@)[i].1
                == url@ && fetch_models(fs@)[i].3 == output@),
{
    let mut i: usize = 0;
    while i < fs.len()
        invariant
            i <= fs@.len(),
            forall|j: int|
                0 <= j < i ==> !(#[trigger] fetch_models(fs@)[j].0 == package@ && fetch_models(fs@)[j].1
                    == url@ && fetch_models(fs@)[j].3 == output@),
        decreases fs@.len() - i,
    {
        assert(fetch_models(fs@)[i as int] == fetch_model(fs@[i as int]));
        if crate::text::str_eq(fs[i].package.as_str(), package) && crate::text::str_eq(fs[i].url.as_str(), url)
            && crate::text::str_eq(fs[i].output.as_str(), output) {
            assert(fetch_models(fs@)[i as int].0 == package@ && fetch_models(fs@)[i as int].1 == url@
                && fetch_models(fs@)[i as int].3 == output@);
            return true;
        }
        i += 1;
    }
    false
}

/// Merge a suggestion into a configuration without enabling execution:
/// allowlists and declared outputs grow, drafts become fetches and their
/// hosts allowed hosts; `enabled`, `profile` and the rest stay as they were.
pub fn merge_suggestion_into_config(cfg: &mut ExecutionConfig, suggestion: &SuggestedExecutionPolicy)
    requires
        old(cfg).declared_outputs.wf(),
        suggestion.declared_outputs.wf(),
    ensures
        final(cfg).enabled == old(cfg).enabled,
        final(cfg).profile@ == old(cfg).profile@,
        final(cfg).allow_scripts.deep_view() == old(cfg).allow_scripts.deep_view(),
        final(cfg).allow_weak_sandbox == old(cfg).allow_weak_sandbox,
        final(cfg).allow_packages.deep_view() == sorted_set(
            old(cfg).allow_packages.deep_view() + suggestion.allow_packages.deep_view(),
        ),
        final(cfg).declared_outputs.wf(),
        forall|q: Seq<char>|
            #[trigger] final(cfg).declared_outputs.spec_get(q) == merge_entries(
                old(cfg).declared_outputs.spec_get(q),
                suggestion.declared_outputs.spec_entries(),
                q,
            ),
        final(cfg).prebuild.allow_hosts.deep_view() == sorted_set(
            old(cfg).prebuild.allow_hosts.deep_view() + crate::prebuild::draft_hosts(
                draft_views(suggestion.prebuild_fetches@),
            ),
        ),
        fetch_models(final(cfg).prebuild.fetches@) == merge_fetches(
            fetch_models(old(cfg).prebuild.fetches@),
            draft_views(suggestion.prebuild_fetches@),
        ),
{
    // Packages.
    let ghost a0 = cfg.allow_packages.deep_view();
    let ghost sa = suggestion.allow_packages.deep_view();
    let mut allow = copy_strings(&cfg.allow_packages);
    let mut i: usize = 0;
    assert(allow.deep_view().to_set() =~= (a0 + sa.take(0)).to_set()) by {
        assert(a0 + sa.take(0) =~= a0);
    }
    while i < suggestion.allow_packages.len()
        invariant
            i <= sa.len(),
            sa == suggestion.allow_packages.deep_view(),
            allow.deep_view().to_set() == (a0 + sa.take(i as int)).to_set(),
        decreases sa.len() - i,
    {
        let p = suggestion.allow_packages[i].as_str();
        let ghost before = allow.deep_view();
        proof {
            assert(a0 + sa.take(i + 1) =~= (a0 + sa.take(i as int)).push(p@));
            (a0 + sa.take(i as int)).lemma_push_to_set_commute(p@);
        }
        if !vec_has(&allow, p) {
            allow.push(own(p));
            proof {
                assert(allow.deep_view() =~= before.push(p@));
                before.lemma_push_to_set_commute(p@);
            }
        } else {
            proof {
                assert(before.to_set().contains(p@));
                assert(before.to_set().insert(p@) =~= before.to_set());
            }
        }
        i += 1;
    }
    assert(sa.take(sa.len() as int) =~= sa);
    let sorted = sort_dedup(&allow);
    proof {
        lemma_is_sorted_set(sorted.deep_view(), a0 + sa);
    }
    cfg.allow_packages = sorted;
    // Declared outputs.
    let ghost d0 = cfg.declared_outputs;
    let ghost es = suggestion.declared_outputs.spec_entries();
    let mut declared = cfg.declared_outputs.duplicate();
    let mut k: usize = 0;
    assert(es.take(0) =~= Seq::<(Seq<char>, Seq<Seq<char>>)>::empty());
    while k < suggestion.declared_outputs.len()
        invariant
            k <= es.len(),
            es == suggestion.declared_outputs.spec_entries(),
            declared.wf(),
            forall|q: Seq<char>|
                #[trigger] declared.spec_get(q) == merge_entries(d0.spec_get(q), es.take(k as int), q),
        decreases es.len() - k,
    {
        assert(es.take(k + 1).drop_last() =~= es.take(k as int));
        assert(es.take(k + 1).last() == es[k as int]);
        merge_outputs(
            &mut declared,
            suggestion.declared_outputs.key_at(k).as_str(),
            suggestion.declared_outputs.value_at(k),
        );
        k += 1;
    }
    assert(es.take(es.len() as int) =~= es);
    cfg.declared_outputs = declared;
    // Prebuild drafts.
    let ghost dv = draft_views(suggestion.prebuild_fetches@);
    let ghost h0 = cfg.prebuild.allow_hosts.deep_view();
    let ghost f0 = fetch_models(cfg.prebuild.fetches@);
    let mut hosts = copy_strings(&cfg.prebuild.allow_hosts);
    let mut fetches = crate::config::duplicate_fetches(&cfg.prebuild.fetches);
    assert(fetch_models(fetches@) =~= f0) by {
        assert forall|q: int| 0 <= q < fetches@.len() implies fetch_models(fetches@)[q] == f0[q] by {
            assert(fetches@[q].same_as(&cfg.prebuild.fetches@[q]));
        }
    }
    let mut j: usize = 0;
    assert(hosts.deep_view().to_set() =~= (h0 + crate::prebuild::draft_hosts(dv.take(0))).to_set()) by {
        assert(h0 + crate::prebuild::draft_hosts(dv.take(0)) =~= h0);
    }
    assert(dv.take(0) =~= Seq::<DraftModel>::empty());
    while j < suggestion.prebuild_fetches.len()
        invariant
            j <= dv.len(),
            dv == draft_views(suggestion.prebuild_fetches@),
            hosts.deep_view().to_set() == (h0 + crate::prebuild::draft_hosts(dv.take(j as int))).to_set(),
            fetch_models(fetches@) == merge_fetches(f0, dv.take(j as int)),
        decreases dv.len() - j,
    {
        let d = &suggestion.prebuild_fetches[j];
        assert(dv[j as int] == d@);
        assert(dv.take(j + 1).drop_last() =~= dv.take(j as int));
        let ghost before = hosts.deep_view();
        let ghost hn = h0 + crate::prebuild::draft_hosts(dv.take(j as int));
        proof {
            assert(h0 + crate::prebuild::draft_hosts(dv.take(j + 1)) =~= hn.push(d.host@));
            hn.lemma_push_to_set_commute(d.host@);
        }
        if !vec_has(&hosts, d.host.as_str()) {
            hosts.push(own(d.host.as_str()));
            proof {
                assert(hosts.deep_view() =~= before.push(d.host@));
                before.lemma_push_to_set_commute(d.host@);
            }
        } else {
            proof {
                assert(before.to_set().contains(d.host@));
                assert(before.to_set().insert(d.host@) =~= before.to_set());
            }
        }
        if !has_fetch(&fetches, d.spec.package.as_str(), d.spec.url.as_str(), d.spec.output.as_str()) {
            let ghost fb = fetches@;
            fetches.push(d.spec.duplicate());
            assert(fetch_models(fetches@) =~= fetch_models(fb).push(draft_fetch(d@)));
        }
        j += 1;
    }
    assert(dv.take(dv.len() as int) =~= dv);
    let hs = sort_dedup(&hosts);
    proof {
        lemma_is_sorted_set(hs.deep_view(), h0 + crate::prebuild::draft_hosts(dv));
    }
    cfg.prebuild.allow_hosts = hs;
    cfg.prebuild.fetches = fetches;
}

// ---------------------------------------------------------------------------
// Laws
// ---------------------------------------------------------------------------

/// Concatenation holds exactly the elements of both parts.
proof fn lemma_concat_contains(a: Seq<Seq<char>>, b: Seq<Seq<char>>, p: Seq<char>)
    ensures
        (a + b).contains(p) <==> (a.contains(p) || b.contains(p)),
{
    if (a + b).contains(p) {
        let k = choose|k: int| 0 <= k < (a + b).len() && (a + b)[k] == p;
        if k < a.len() {
            assert(a[k] == p);
        } else {
            assert(b[k - a.len()] == p);
        }
    }
    if a.contains(p) {
        let k = choose|k: int| 0 <= k < a.len() && a[k] == p;
        assert((a + b)[k] == p);
    }
    if b.contains(p) {
        let k = choose|k: int| 0 <= k < b.len() && b[k] == p;
        assert((a + b)[a.len() + k] == p);
    }
}

/// Merged allow lists hold exactly what was allowed before or suggested:
/// a merge never drops an allowed package and adds nothing unsuggested.
pub proof fn lemma_merge_allow(before: Seq<Seq<char>>, suggested: Seq<Seq<char>>, p: Seq<char>)
    ensures
        sorted_set(before + suggested).contains(p) <==> (before.contains(p) || suggested.contains(p)),
{
    crate::textmap::lemma_sorted_set(before + suggested);
    lemma_concat_contains(before, suggested, p);
    assert(sorted_set(before + suggested).to_set().contains(p) == sorted_set(before + suggested).contains(p));
    assert((before + suggested).to_set().contains(p) == (before + suggested).contains(p));
}

/// A merge never drops an output already declared for a package.
pub proof fn lemma_merge_keeps_outputs(
    o: Option<Seq<Seq<char>>>,
    es: Seq<(Seq<char>, Seq<Seq<char>>)>,
    q: Seq<char>,
    x: Seq<char>,
)
    requires
        or_empty(o).contains(x),
    ensures
        or_empty(merge_entries(o, es, q)).contains(x),
    decreases es.len(),
{
    if es.len() > 0 {
        lemma_merge_keeps_outputs(o, es.drop_last(), q, x);
        let p = merge_entries(o, es.drop_last(), q);
        if es.last().0 == q {
            lemma_merge_allow(or_empty(p), es.last().1, x);
        }
    }
}

/// A proposed name belongs to a proposing discovery.
proof fn lemma_suggested_from(ds: Seq<PackageDiscovery>, n: Seq<char>)
    requires
        suggested_names(ds).contains(n),
    ensures
        exists|i: int| 0 <= i < ds.len() && suggests(#[trigger] ds[i]) && ds[i].name@ == n,
    decreases ds.len(),
{
    let p = ds.drop_last();
    if suggests(ds.last()) && ds.last().name@ == n {
        assert(ds[ds.len() - 1] == ds.last());
    } else {
        if suggests(ds.last()) {
            assert(suggested_names(ds) == suggested_names(p).push(ds.last().name@));
            let k = choose|k: int| 0 <= k < suggested_names(ds).len() && suggested_names(ds)[k] == n;
            assert(suggested_names(p)[k] == n);
        }
        lemma_suggested_from(p, n);
        let i = choose|i: int| 0 <= i < p.len() && suggests(#[trigger] p[i]) && p[i].name@ == n;
        assert(ds[i] == p[i]);
    }
}

/// A suggestion allows a package only if it was allowed already, a safe
/// discovery with exact outputs proposes it, or a suggestable prebuild draft
/// names it. Blocked, unsafe or incomplete packages are never added.
pub proof fn lemma_suggestion_allow_sources(
    current: Seq<Seq<char>>,
    ds: Seq<PackageDiscovery>,
    drafts: Seq<DraftModel>,
    n: Seq<char>,
)
    requires
        sorted_set(current + suggested_names(ds) + draft_packages(drafts)).contains(n),
    ensures
        current.contains(n) || (exists|i: int| 0 <= i < ds.len() && suggests(#[trigger] ds[i]) && ds[i].name@ == n)
            || (exists|j: int| 0 <= j < drafts.len() && #[trigger] drafts[j].package == n),
{
    lemma_merge_allow(current + suggested_names(ds), draft_packages(drafts), n);
    lemma_concat_contains(current, suggested_names(ds), n);
    if suggested_names(ds).contains(n) {
        lemma_suggested_from(ds, n);
    }
    if draft_packages(drafts).contains(n) {
        let k = choose|k: int| 0 <= k < draft_packages(drafts).len() && draft_packages(drafts)[k] == n;
        assert(drafts[k].package == n);
    }
}

/// With no native prebuild reports, the suggestion with prebuilds is the
/// plain suggestion: the same allowlist, the same declared outputs for every
/// package, no drafts and no policy gaps.
pub proof fn lemma_no_reports_plain_suggestion(ds: Seq<PackageDiscovery>, current: ExecutionConfig)
    ensures
        all_drafts(Seq::<NativePrebuildReport>::empty(), current).len() == 0,
        gap_names(Seq::<NativePrebuildReport>::empty()).len() == 0,
        sorted_set(
            current.allow_packages.deep_view() + suggested_names(ds) + draft_packages(
                all_drafts(Seq::<NativePrebuildReport>::empty(), current),
            ),
        ) == sorted_set(current.allow_packages.deep_view() + suggested_names(ds)),
        forall|k: Seq<char>|
            #[trigger] outputs_after_drafts(
                outputs_after(current.declared_outputs.spec_get(k), ds, k),
                all_drafts(Seq::<NativePrebuildReport>::empty(), current),
                k,
            ) == outputs_after(current.declared_outputs.spec_get(k), ds, k),
{
    let none = all_drafts(Seq::<NativePrebuildReport>::empty(), current);
    assert(none =~= Seq::<DraftModel>::empty());
    let base = current.allow_packages.deep_view() + suggested_names(ds);
    assert(base + draft_packages(none) =~= base);
}

/// A suggestion is determined by its inputs: two suggestions for the same
/// discoveries, reports and configuration agree on every part. Since the
/// plain suggestion is the suggestion with no reports, it equals what
/// `suggest_execution_policy_with_prebuilds` gives for an empty report list;
/// then it holds no drafts and no policy gaps.
pub proof fn lemma_suggestion_determined(
    a: SuggestedExecutionPolicy,
    b: SuggestedExecutionPolicy,
    ds: Seq<PackageDiscovery>,
    reports: Seq<NativePrebuildReport>,
    current: ExecutionConfig,
)
    requires
        suggestion_of(a, ds, reports, current),
        suggestion_of(b, ds, reports, current),
    ensures
        a.allow_packages.deep_view() == b.allow_packages.deep_view(),
        a.declared_outputs.spec_entries() == b.declared_outputs.spec_entries(),
        draft_views(a.prebuild_fetches@) == draft_views(b.prebuild_fetches@),
        blocked_views(a.blocked_packages@) == blocked_views(b.blocked_packages@),
        a.incomplete_packages.deep_view() == b.incomplete_packages.deep_view(),
        a.native_policy_gaps.deep_view() == b.native_policy_gaps.deep_view(),
        a.enabled_suggestion == b.enabled_suggestion,
        a.toml_fragment@ == b.toml_fragment@,
        reports.len() == 0 ==> a.prebuild_fetches@.len() == 0 && a.native_policy_gaps.deep_view().len() == 0,
{
    crate::textmap::lemma_textmap_ext(a.declared_outputs, b.declared_outputs);
    if reports.len() == 0 {
        assert(all_drafts(reports, current) =~= Seq::<DraftModel>::empty());
        assert(gap_names(reports) =~= Seq::<Seq<char>>::empty());
        lemma_is_sorted_set(Seq::<Seq<char>>::empty(), Seq::<Seq<char>>::empty());
        assert(draft_views(a.prebuild_fetches@).len() == a.prebuild_fetches@.len());
    }
}

/// A blocked discovery is never proposed.
pub proof fn lemma_blocked_never_suggested(d: PackageDiscovery)
    requires
        is_blocked(d) || any_unsafe(d.discovered_scripts@),
    ensures
        !suggests(d),
{
}

} // verus!
