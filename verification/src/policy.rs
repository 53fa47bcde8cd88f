//! Reviewed prebuild policy packs.
//!
//! A pack proposes `allow_hosts`, prebuild fetches, allowlisted packages and
//! declared outputs. Applying a pack never enables execution and never changes
//! the profile: enablement stays with the reviewed configuration.
use vstd::prelude::*;
use crate::config::{
    duplicate_fetches, prebuild_problem_in, first_fetch_problem_in, lemma_first_fetch_problem_views,
    ExecutionConfig, PrebuildConfig, PrebuildFetchSpec, ProjectConfig, first_bad_script,
};
use crate::suggest::{fetch_model, fetch_models, or_empty, lemma_merge_allow};
use crate::text::{
    chars_of, copy_strings, decimal, decimal_string, eq_chars, extend_str, list_has, lower,
    lower_chars, own, string_of, trim, trim_chars,
};
use crate::textmap::{lemma_is_sorted_set, sort_dedup, sorted_set, TextMap};

verus! {

/// Current policy pack schema version.
pub const POLICY_PACK_VERSION: u32 = 1;

/// A reviewed policy pack.
#[derive(Debug)]
pub struct PolicyPack {
    /// Schema version.
    pub version: u32,
    /// Stable pack id.
    pub id: String,
    /// Human description.
    pub description: String,
    /// Prebuild allowlist fragment.
    pub prebuild: PrebuildConfig,
    /// Packages to add to allow_packages (still not an enablement).
    pub allow_packages: Vec<String>,
    /// Declared outputs to merge.
    pub declared_outputs: TextMap<Vec<String>>,
}

/// What applying a pack changed.
#[derive(Debug)]
pub struct PolicyPackApplyReport {
    /// Pack id.
    pub pack_id: String,
    /// Hosts added, in pack order.
    pub hosts_added: Vec<String>,
    /// Number of fetches added.
    pub fetches_added: usize,
    /// Packages added to allow_packages, in pack order.
    pub packages_added: Vec<String>,
    /// `execution.enabled` was left unchanged.
    pub enabled_unchanged: bool,
    /// `execution.profile` was left unchanged.
    pub profile_unchanged: bool,
    /// Reminder text.
    pub note: String,
}

// ---------------------------------------------------------------------------
// Validation
// ---------------------------------------------------------------------------

/// Outputs named by the fetches of `fs` for `package`, in order.
pub open spec fn fetch_outputs(fs: Seq<PrebuildFetchSpec>, package: Seq<char>) -> Seq<Seq<char>>
    decreases fs.len(),
{
    if fs.len() == 0 {
        Seq::empty()
    } else if fs.last().package@ == package {
        fetch_outputs(fs.drop_last(), package).push(fs.last().output@)
    } else {
        fetch_outputs(fs.drop_last(), package)
    }
}

/// Declared outputs a pack is validated against: its own, then every fetch's output.
pub open spec fn pack_outputs(pack: PolicyPack, package: Seq<char>) -> Seq<Seq<char>> {
    or_empty(pack.declared_outputs.spec_get(package)) + fetch_outputs(pack.prebuild.fetches@, package)
}

/// The first problem of a pack, if any: schema version, empty id, then the
/// prebuild section as execution validation judges it.
pub open spec fn pack_problem(pack: PolicyPack) -> Option<Seq<char>> {
    if pack.version == 0 || pack.version > POLICY_PACK_VERSION {
        Some(
            "unsupported policy pack version "@ + decimal(pack.version as nat)
                + " (supported: 1..=1)"@,
        )
    } else if trim(pack.id@).len() == 0 {
        Some("policy pack id must be non-empty"@)
    } else {
        prebuild_problem_in(
            pack.prebuild.allow_hosts.deep_view(),
            pack.prebuild.fetches@,
            |q: Seq<char>| pack_outputs(pack, q),
        )
    }
}

/// Append `o` to the outputs of `name`, creating the entry when missing.
fn push_output(declared: &mut TextMap<Vec<String>>, name: &str, o: &str)
    requires
        old(declared).wf(),
    ensures
        final(declared).wf(),
        final(declared).spec_get(name@) == Some(or_empty(old(declared).spec_get(name@)).push(o@)),
        forall|q: Seq<char>| q != name@ ==> final(declared).spec_get(q) == old(declared).spec_get(q),
{
    let mut e = match declared.get(name) {
        Some(e) => copy_strings(e),
        None => {
            let v: Vec<String> = Vec::new();
            assert(v.deep_view() =~= Seq::<Seq<char>>::empty());
            v
        },
    };
    let ghost base = e.deep_view();
    e.push(own(o));
    assert(e.deep_view() =~= base.push(o@));
    declared.insert(own(name), e);
}

/// Validate a pack: version in `1..=1`, non-empty id, and a prebuild section
/// that execution validation accepts when every fetch's output is declared.
pub fn validate_policy_pack(pack: &PolicyPack) -> (r: Result<(), String>)
    requires
        pack.declared_outputs.wf(),
    ensures
        match (r, pack_problem(*pack)) {
            (Ok(()), None) => true,
            (Err(e), Some(m)) => e@ == m,
            _ => false,
        },
{
    if pack.version == 0 || pack.version > POLICY_PACK_VERSION {
        let mut m = chars_of("unsupported policy pack version ");
        extend_str(&mut m, decimal_string(pack.version as u64).as_str());
        extend_str(&mut m, " (supported: 1..=1)");
        return Err(string_of(&m));
    }
    let idc = chars_of(pack.id.as_str());
    if trim_chars(&idc).len() == 0 {
        return Err(own("policy pack id must be non-empty"));
    }
    let fs = &pack.prebuild.fetches;
    let mut declared = pack.declared_outputs.duplicate();
    let mut i: usize = 0;
    while i < fs.len()
        invariant
            i <= fs@.len(),
            fs == &pack.prebuild.fetches,
            declared.wf(),
            forall|q: Seq<char>|
                #[trigger] or_empty(declared.spec_get(q)) == or_empty(pack.declared_outputs.spec_get(q))
                    + fetch_outputs(fs@.take(i as int), q),
        decreases fs@.len() - i,
    {
        let ghost before = declared;
        push_output(&mut declared, fs[i].package.as_str(), fs[i].output.as_str());
        assert(fs@.take(i + 1).drop_last() =~= fs@.take(i as int));
        assert forall|q: Seq<char>|
            #[trigger] or_empty(declared.spec_get(q)) == or_empty(pack.declared_outputs.spec_get(q))
                + fetch_outputs(fs@.take(i + 1), q) by {
            if q == fs@[i as int].package@ {
                assert(or_empty(pack.declared_outputs.spec_get(q)) + fetch_outputs(fs@.take(i + 1), q)
                    =~= (or_empty(pack.declared_outputs.spec_get(q)) + fetch_outputs(
                    fs@.take(i as int),
                    q,
                )).push(fs@[i as int].output@));
            } else {
                assert(or_empty(before.spec_get(q)) == or_empty(declared.spec_get(q)));
            }
        }
        i += 1;
    }
    assert(fs@.take(fs@.len() as int) =~= fs@);
    let scripts = vec![own("install")];
    let exec = ExecutionConfig {
        enabled: false,
        profile: own("prebuild-fetch"),
        allow_packages: copy_strings(&pack.allow_packages),
        allow_scripts: scripts,
        declared_outputs: declared,
        allow_weak_sandbox: false,
        prebuild: pack.prebuild.duplicate(),
    };
    proof {
        reveal_strlit("install");
        reveal_strlit("open");
        reveal_strlit("prebuild-fetch");
        assert(exec.allow_scripts.deep_view() =~= seq!["install"@]);
        assert(first_bad_script(exec.allow_scripts.deep_view(), 1) == 1);
        assert(first_bad_script(exec.allow_scripts.deep_view(), 0) == 1);
        let po = |q: Seq<char>| pack_outputs(*pack, q);
        assert(exec.outputs_fn() =~= po) by {
            assert forall|q: Seq<char>| #[trigger] exec.outputs_fn()(q) == po(q) by {
                assert(exec.spec_outputs_for(q) == or_empty(exec.declared_outputs.spec_get(q)));
            }
        }
        lemma_first_fetch_problem_views(
            pack.prebuild.allow_hosts.deep_view(),
            po,
            exec.prebuild.fetches@,
            pack.prebuild.fetches@,
            0,
        );
        let h = pack.prebuild.allow_hosts.deep_view();
        assert(exec.prebuild.allow_hosts.deep_view() == h);
        assert(exec.prebuild_problem() == prebuild_problem_in(h, exec.prebuild.fetches@, po));
        assert(exec.prebuild.fetches@.len() == pack.prebuild.fetches@.len());
        assert(first_fetch_problem_in(h, po, exec.prebuild.fetches@, 0) == first_fetch_problem_in(
            h,
            po,
            pack.prebuild.fetches@,
            0,
        ));
        let fi = first_fetch_problem_in(h, po, pack.prebuild.fetches@, 0);
        crate::config::lemma_first_fetch_problem_bounds(h, po, pack.prebuild.fetches@, 0);
        if fi < pack.prebuild.fetches@.len() {
            assert(exec.prebuild.fetches@[fi].same_as(&pack.prebuild.fetches@[fi]));
            assert(crate::config::fetch_problem_in(h, po, exec.prebuild.fetches@[fi])
                == crate::config::fetch_problem_in(h, po, pack.prebuild.fetches@[fi]));
        }
        assert(prebuild_problem_in(h, exec.prebuild.fetches@, po) == prebuild_problem_in(
            h,
            pack.prebuild.fetches@,
            po,
        ));
        assert(trim(pack.id@).len() != 0);
        assert(pack_problem(*pack) == prebuild_problem_in(h, pack.prebuild.fetches@, po));
        assert(exec.profile@ == "prebuild-fetch"@);
        assert(exec.profile@ != "open"@);
        assert(!exec.allow_weak_sandbox);
        assert(exec.policy_problem() == exec.prebuild_problem());
    }
    exec.validate()
}

// ---------------------------------------------------------------------------
// Applying a pack
// ---------------------------------------------------------------------------

/// Whether `l` holds `x` up to ASCII case.
pub open spec fn has_ignoring_case(l: Seq<Seq<char>>, x: Seq<char>) -> bool {
    exists|i: int| 0 <= i < l.len() && lower(#[trigger] l[i]) == lower(x)
}

/// Hosts of `ps` that a merge adds to `existing`: each in pack order, unless
/// an equal host up to ASCII case is already there.
pub open spec fn new_hosts(existing: Seq<Seq<char>>, ps: Seq<Seq<char>>) -> Seq<Seq<char>>
    decreases ps.len(),
{
    if ps.len() == 0 {
        Seq::empty()
    } else {
        let a = new_hosts(existing, ps.drop_last());
        if has_ignoring_case(existing + a, ps.last()) {
            a
        } else {
            a.push(ps.last())
        }
    }
}

/// Names of `ps` that a merge adds to `existing`: each in pack order, unless
/// already there.
pub open spec fn new_names(existing: Seq<Seq<char>>, ps: Seq<Seq<char>>) -> Seq<Seq<char>>
    decreases ps.len(),
{
    if ps.len() == 0 {
        Seq::empty()
    } else {
        let a = new_names(existing, ps.drop_last());
        if list_has(existing + a, ps.last()) {
            a
        } else {
            a.push(ps.last())
        }
    }
}

/// Fetches after the pack's fetches were merged: each is appended unless one
/// for the same package, URL and output is already there.
pub open spec fn merge_pack_fetches(
    fs: Seq<(Seq<char>, Seq<char>, Seq<char>, Seq<char>, Option<Seq<char>>, Option<Seq<char>>, Option<Seq<char>>)>,
    ps: Seq<(Seq<char>, Seq<char>, Seq<char>, Seq<char>, Option<Seq<char>>, Option<Seq<char>>, Option<Seq<char>>)>,
) -> Seq<(Seq<char>, Seq<char>, Seq<char>, Seq<char>, Option<Seq<char>>, Option<Seq<char>>, Option<Seq<char>>)>
    decreases ps.len(),
{
    if ps.len() == 0 {
        fs
    } else {
        let p = merge_pack_fetches(fs, ps.drop_last());
        let m = ps.last();
        if exists|i: int| 0 <= i < p.len() && #[trigger] p[i].0 == m.0 && p[i].1 == m.1 && p[i].3 == m.3 {
            p
        } else {
            p.push(m)
        }
    }
}

/// `l` with `o` appended unless already there.
pub open spec fn append_one(l: Seq<Seq<char>>, o: Seq<char>) -> Seq<Seq<char>> {
    if l.contains(o) {
        l
    } else {
        l.push(o)
    }
}

/// `l` with each of `xs` appended in order unless already there.
pub open spec fn append_new(l: Seq<Seq<char>>, xs: Seq<Seq<char>>) -> Seq<Seq<char>>
    decreases xs.len(),
{
    if xs.len() == 0 {
        l
    } else {
        append_one(append_new(l, xs.drop_last()), xs.last())
    }
}

/// Outputs for `q` after the pack's fetches declared their outputs.
pub open spec fn outputs_after_fetches(o: Option<Seq<Seq<char>>>, fs: Seq<PrebuildFetchSpec>, q: Seq<char>) -> Option<Seq<Seq<char>>>
    decreases fs.len(),
{
    if fs.len() == 0 {
        o
    } else {
        let p = outputs_after_fetches(o, fs.drop_last(), q);
        if fs.last().package@ == q {
            Some(append_one(or_empty(p), fs.last().output@))
        } else {
            p
        }
    }
}

/// Outputs for `q` after the pack's declared-output entries were merged.
pub open spec fn outputs_after_entries(o: Option<Seq<Seq<char>>>, es: Seq<(Seq<char>, Seq<Seq<char>>)>, q: Seq<char>) -> Option<Seq<Seq<char>>>
    decreases es.len(),
{
    if es.len() == 0 {
        o
    } else {
        let p = outputs_after_entries(o, es.drop_last(), q);
        if es.last().0 == q {
            Some(append_new(or_empty(p), es.last().1))
        } else {
            p
        }
    }
}

/// The reminder attached to every apply report.
pub open spec fn pack_note() -> Seq<char> {
    "Policy pack merged for review. execution.enabled and profile were not changed. Dual gate still required: enable in config + weave switch --with-exec."@
}

/// Whether two strings are equal up to ASCII case.
fn same_ignoring_case(a: &str, b: &str) -> (r: bool)
    ensures
        r == (lower(a@) == lower(b@)),
{
    let la = lower_chars(&chars_of(a));
    let lb = lower_chars(&chars_of(b));
    eq_chars(&la, &lb)
}

/// Whether `l` holds `x` up to ASCII case.
fn vec_has_ignoring_case(l: &Vec<String>, x: &str) -> (r: bool)
    ensures
        r == has_ignoring_case(l.deep_view(), x@),
{
    let mut i: usize = 0;
    while i < l.len()
        invariant
            i <= l.len(),
            forall|j: int| 0 <= j < i ==> lower(#[trigger] l.deep_view()[j]) != lower(x@),
        decreases l.len() - i,
    {
        if same_ignoring_case(l[i].as_str(), x) {
            assert(lower(l.deep_view()[i as int]) == lower(x@));
            return true;
        }
        i += 1;
    }
    false
}

/// Append `o` to the outputs of `name` unless already there; creates the entry.
fn add_output_once(declared: &mut TextMap<Vec<String>>, name: &str, o: &str)
    requires
        old(declared).wf(),
    ensures
        final(declared).wf(),
        final(declared).spec_get(name@) == Some(append_one(or_empty(old(declared).spec_get(name@)), o@)),
        forall|q: Seq<char>| q != name@ ==> final(declared).spec_get(q) == old(declared).spec_get(q),
{
    let mut e = match declared.get(name) {
        Some(e) => copy_strings(e),
        None => {
            let v: Vec<String> = Vec::new();
            assert(v.deep_view() =~= Seq::<Seq<char>>::empty());
            v
        },
    };
    let ghost base = e.deep_view();
    if !crate::text::vec_has(&e, o) {
        e.push(own(o));
        assert(e.deep_view() =~= base.push(o@));
    }
    proof {
        if list_has(base, o@) {
            let k = choose|k: int| 0 <= k < base.len() && base[k] == o@;
            assert(base.contains(o@));
        } else {
            assert(!base.contains(o@));
        }
    }
    declared.insert(own(name), e);
}

/// Append each of `outs` to the outputs of `name` unless already there.
fn add_outputs_once(declared: &mut TextMap<Vec<String>>, name: &str, outs: &Vec<String>)
    requires
        old(declared).wf(),
    ensures
        final(declared).wf(),
        final(declared).spec_get(name@) == Some(
            append_new(or_empty(old(declared).spec_get(name@)), outs.deep_view()),
        ),
        forall|q: Seq<char>| q != name@ ==> final(declared).spec_get(q) == old(declared).spec_get(q),
{
    let mut e = match declared.get(name) {
        Some(e) => copy_strings(e),
        None => {
            let v: Vec<String> = Vec::new();
            assert(v.deep_view() =~= Seq::<Seq<char>>::empty());
            v
        },
    };
    let ghost base = e.deep_view();
    let ghost xs = outs.deep_view();
    let mut j: usize = 0;
    assert(xs.take(0) =~= Seq::<Seq<char>>::empty());
    while j < outs.len()
        invariant
            j <= xs.len(),
            xs == outs.deep_view(),
            e.deep_view() == append_new(base, xs.take(j as int)),
        decreases xs.len() - j,
    {
        let ghost before = e.deep_view();
        let o = outs[j].as_str();
        assert(xs.take(j + 1).drop_last() =~= xs.take(j as int));
        assert(xs.take(j + 1).last() == o@);
        if !crate::text::vec_has(&e, o) {
            e.push(own(o));
            assert(e.deep_view() =~= before.push(o@));
            assert(!before.contains(o@)) by {
                if before.contains(o@) {
                    let k = choose|k: int| 0 <= k < before.len() && before[k] == o@;
                    assert(list_has(before, o@));
                }
            }
        } else {
            proof {
                let k = choose|k: int| 0 <= k < before.len() && before[k] == o@;
                assert(before.contains(o@));
            }
        }
        j += 1;
    }
    assert(xs.take(xs.len() as int) =~= xs);
    declared.insert(own(name), e);
}

} // verus!

verus! {

/// Merge a pack into the project's execution config without enabling it.
///
/// Hosts are added unless present up to ASCII case; fetches unless one for the
/// same package, URL and output exists, each fetch's output then declared;
/// packages and declared outputs are added unless present. `enabled`,
/// `profile` and everything outside the execution allowlists stay as they were.
#[verifier::rlimit(60)]
pub fn apply_policy_pack(cfg: &mut ProjectConfig, pack: &PolicyPack) -> (r: PolicyPackApplyReport)
    requires
        old(cfg).execution.declared_outputs.wf(),
        pack.declared_outputs.wf(),
    ensures
        final(cfg).version == old(cfg).version,
        final(cfg).store_path@ == old(cfg).store_path@,
        final(cfg).materialization_version@ == old(cfg).materialization_version@,
        final(cfg).execution.enabled == old(cfg).execution.enabled,
        final(cfg).execution.profile@ == old(cfg).execution.profile@,
        final(cfg).execution.allow_scripts.deep_view() == old(cfg).execution.allow_scripts.deep_view(),
        final(cfg).execution.allow_weak_sandbox == old(cfg).execution.allow_weak_sandbox,
        r.hosts_added.deep_view() == new_hosts(
            old(cfg).execution.prebuild.allow_hosts.deep_view(),
            pack.prebuild.allow_hosts.deep_view(),
        ),
        final(cfg).execution.prebuild.allow_hosts.deep_view() == sorted_set(
            old(cfg).execution.prebuild.allow_hosts.deep_view() + r.hosts_added.deep_view(),
        ),
        fetch_models(final(cfg).execution.prebuild.fetches@) == merge_pack_fetches(
            fetch_models(old(cfg).execution.prebuild.fetches@),
            fetch_models(pack.prebuild.fetches@),
        ),
        r.fetches_added == final(cfg).execution.prebuild.fetches@.len()
            - old(cfg).execution.prebuild.fetches@.len(),
        r.packages_added.deep_view() == new_names(
            old(cfg).execution.allow_packages.deep_view(),
            pack.allow_packages.deep_view(),
        ),
        final(cfg).execution.allow_packages.deep_view() == sorted_set(
            old(cfg).execution.allow_packages.deep_view() + pack.allow_packages.deep_view(),
        ),
        final(cfg).execution.declared_outputs.wf(),
        forall|q: Seq<char>|
            #[trigger] final(cfg).execution.declared_outputs.spec_get(q) == outputs_after_entries(
                outputs_after_fetches(
                    old(cfg).execution.declared_outputs.spec_get(q),
                    pack.prebuild.fetches@,
                    q,
                ),
                pack.declared_outputs.spec_entries(),
                q,
            ),
        r.pack_id@ == pack.id@,
        r.enabled_unchanged,
        r.profile_unchanged,
        r.note@ == pack_note(),
        // Every package of the pack is allowed afterwards.
        forall|p: Seq<char>|
            list_has(pack.allow_packages.deep_view(), p) ==> list_has(
                final(cfg).execution.allow_packages.deep_view(),
                p,
            ),
        // Every fetch of the pack is configured afterwards, its output declared.
        forall|k: int|
            #![trigger pack.prebuild.fetches@[k]]
            0 <= k < pack.prebuild.fetches@.len() ==> exists|i: int|
                0 <= i < final(cfg).execution.prebuild.fetches@.len()
                    && #[trigger] final(cfg).execution.prebuild.fetches@[i].package@
                    == pack.prebuild.fetches@[k].package@
                    && final(cfg).execution.prebuild.fetches@[i].url@ == pack.prebuild.fetches@[k].url@
                    && final(cfg).execution.prebuild.fetches@[i].output@
                    == pack.prebuild.fetches@[k].output@,
        forall|k: int|
            0 <= k < pack.prebuild.fetches@.len() ==> list_has(
                #[trigger] final(cfg).execution.spec_outputs_for(pack.prebuild.fetches@[k].package@),
                pack.prebuild.fetches@[k].output@,
            ),
{
    let ghost cfg0 = *cfg;
    // Hosts.
    let ghost h0 = cfg.execution.prebuild.allow_hosts.deep_view();
    let ghost ph = pack.prebuild.allow_hosts.deep_view();
    let mut hosts = copy_strings(&cfg.execution.prebuild.allow_hosts);
    let mut hosts_added: Vec<String> = Vec::new();
    let mut i: usize = 0;
    assert(ph.take(0) =~= Seq::<Seq<char>>::empty());
    assert(h0 + new_hosts(h0, ph.take(0)) =~= h0);
    assert(hosts_added.deep_view() =~= Seq::<Seq<char>>::empty());
    while i < pack.prebuild.allow_hosts.len()
        invariant
            i <= ph.len(),
            ph == pack.prebuild.allow_hosts.deep_view(),
            hosts_added.deep_view() == new_hosts(h0, ph.take(i as int)),
            hosts.deep_view() == h0 + hosts_added.deep_view(),
        decreases ph.len() - i,
    {
        let h = pack.prebuild.allow_hosts[i].as_str();
        assert(ph.take(i + 1).drop_last() =~= ph.take(i as int));
        assert(ph.take(i + 1).last() == h@);
        if !vec_has_ignoring_case(&hosts, h) {
            let ghost before = hosts_added.deep_view();
            let ghost hb = hosts.deep_view();
            hosts.push(own(h));
            hosts_added.push(own(h));
            assert(hosts_added.deep_view() =~= before.push(h@));
            assert(hosts.deep_view() =~= hb.push(h@));
            assert(hosts.deep_view() =~= h0 + hosts_added.deep_view());
        }
        i += 1;
    }
    assert(ph.take(ph.len() as int) =~= ph);
    let hs = sort_dedup(&hosts);
    // Fetches and their outputs.
    let ghost f0 = fetch_models(cfg.execution.prebuild.fetches@);
    let ghost pf = pack.prebuild.fetches@;
    let ghost pm = fetch_models(pf);
    let ghost d0 = cfg.execution.declared_outputs;
    let mut fetches = duplicate_fetches(&cfg.execution.prebuild.fetches);
    assert(fetch_models(fetches@) =~= f0) by {
        assert forall|q: int| 0 <= q < fetches@.len() implies fetch_models(fetches@)[q] == f0[q] by {
            assert(fetches@[q].same_as(&cfg.execution.prebuild.fetches@[q]));
        }
    }
    let mut declared = cfg.execution.declared_outputs.duplicate();
    let mut fetches_added: usize = 0;
    let mut j: usize = 0;
    assert(pm.take(0) =~= Seq::empty());
    assert(pf.take(0) =~= Seq::<PrebuildFetchSpec>::empty());
    while j < pack.prebuild.fetches.len()
        invariant
            j <= pf.len(),
            pf == pack.prebuild.fetches@,
            pm == fetch_models(pf),
            fetch_models(fetches@) == merge_pack_fetches(f0, pm.take(j as int)),
            fetches@.len() == f0.len() + fetches_added,
            fetches_added <= j,
            declared.wf(),
            forall|q: Seq<char>|
                #[trigger] declared.spec_get(q) == outputs_after_fetches(d0.spec_get(q), pf.take(j as int), q),
        decreases pf.len() - j,
    {
        let f = &pack.prebuild.fetches[j];
        assert(pm.take(j + 1).drop_last() =~= pm.take(j as int));
        assert(pm.take(j + 1).last() == fetch_model(*f));
        assert(pf.take(j + 1).drop_last() =~= pf.take(j as int));
        assert(pf.take(j + 1).last() == *f);
        if !crate::suggest::has_fetch(&fetches, f.package.as_str(), f.url.as_str(), f.output.as_str()) {
            let ghost fb = fetches@;
            fetches.push(f.duplicate());
            assert(fetch_models(fetches@) =~= fetch_models(fb).push(fetch_model(*f)));
            fetches_added += 1;
        }
        let ghost dbefore = declared;
        add_output_once(&mut declared, f.package.as_str(), f.output.as_str());
        assert forall|q: Seq<char>|
            #[trigger] declared.spec_get(q) == outputs_after_fetches(d0.spec_get(q), pf.take(j + 1), q) by {
            if q != f.package@ {
                assert(declared.spec_get(q) == dbefore.spec_get(q));
            }
        }
        j += 1;
    }
    assert(pm.take(pm.len() as int) =~= pm);
    assert(pf.take(pf.len() as int) =~= pf);
    // Packages.
    let ghost a0 = cfg.execution.allow_packages.deep_view();
    let ghost pa = pack.allow_packages.deep_view();
    let mut allow = copy_strings(&cfg.execution.allow_packages);
    let mut packages_added: Vec<String> = Vec::new();
    let mut k: usize = 0;
    assert(pa.take(0) =~= Seq::<Seq<char>>::empty());
    assert(a0 + new_names(a0, pa.take(0)) =~= a0);
    assert(packages_added.deep_view() =~= Seq::<Seq<char>>::empty());
    assert(allow.deep_view().to_set() =~= (a0 + pa.take(0)).to_set());
    while k < pack.allow_packages.len()
        invariant
            k <= pa.len(),
            pa == pack.allow_packages.deep_view(),
            packages_added.deep_view() == new_names(a0, pa.take(k as int)),
            allow.deep_view() == a0 + packages_added.deep_view(),
            allow.deep_view().to_set() == (a0 + pa.take(k as int)).to_set(),
        decreases pa.len() - k,
    {
        let p = pack.allow_packages[k].as_str();
        let ghost before = allow.deep_view();
        assert(pa.take(k + 1).drop_last() =~= pa.take(k as int));
        assert(pa.take(k + 1).last() == p@);
        proof {
            assert(a0 + pa.take(k + 1) =~= (a0 + pa.take(k as int)).push(p@));
            (a0 + pa.take(k as int)).lemma_push_to_set_commute(p@);
        }
        if !crate::text::vec_has(&allow, p) {
            let ghost ab = packages_added.deep_view();
            allow.push(own(p));
            packages_added.push(own(p));
            assert(packages_added.deep_view() =~= ab.push(p@));
            assert(allow.deep_view() =~= before.push(p@));
            assert(allow.deep_view() =~= a0 + packages_added.deep_view());
            proof {
                before.lemma_push_to_set_commute(p@);
            }
        } else {
            proof {
                let w = choose|w: int| 0 <= w < before.len() && before[w] == p@;
                assert(before.to_set().contains(p@));
                assert(before.to_set().insert(p@) =~= before.to_set());
            }
        }
        k += 1;
    }
    assert(pa.take(pa.len() as int) =~= pa);
    let sorted = sort_dedup(&allow);
    proof {
        lemma_is_sorted_set(sorted.deep_view(), a0 + pa);
    }
    // Declared output entries.
    let ghost es = pack.declared_outputs.spec_entries();
    let ghost d1 = declared;
    let mut e: usize = 0;
    assert(es.take(0) =~= Seq::<(Seq<char>, Seq<Seq<char>>)>::empty());
    while e < pack.declared_outputs.len()
        invariant
            e <= es.len(),
            es == pack.declared_outputs.spec_entries(),
            declared.wf(),
            forall|q: Seq<char>|
                #[trigger] declared.spec_get(q) == outputs_after_entries(d1.spec_get(q), es.take(e as int), q),
        decreases es.len() - e,
    {
        assert(es.take(e + 1).drop_last() =~= es.take(e as int));
        assert(es.take(e + 1).last() == es[e as int]);
        let ghost dbefore = declared;
        add_outputs_once(
            &mut declared,
            pack.declared_outputs.key_at(e).as_str(),
            pack.declared_outputs.value_at(e),
        );
        assert forall|q: Seq<char>|
            #[trigger] declared.spec_get(q) == outputs_after_entries(d1.spec_get(q), es.take(e + 1), q) by {
            if q != es[e as int].0 {
                assert(declared.spec_get(q) == dbefore.spec_get(q));
            }
        }
        e += 1;
    }
    assert(es.take(es.len() as int) =~= es);
    cfg.execution.prebuild.allow_hosts = hs;
    cfg.execution.prebuild.fetches = fetches;
    cfg.execution.allow_packages = sorted;
    cfg.execution.declared_outputs = declared;
    proof {
        assert forall|p: Seq<char>| list_has(pa, p) implies list_has(
            cfg.execution.allow_packages.deep_view(),
            p,
        ) by {
            let w = choose|w: int| 0 <= w < pa.len() && pa[w] == p;
            assert(pa.contains(p));
            lemma_merge_allow(a0, pa, p);
            let v = choose|v: int|
                0 <= v < cfg.execution.allow_packages.deep_view().len()
                    && cfg.execution.allow_packages.deep_view()[v] == p;
        }
        assert forall|k: int| #![trigger pf[k]] 0 <= k < pf.len() implies exists|i: int|
            0 <= i < cfg.execution.prebuild.fetches@.len()
                && #[trigger] cfg.execution.prebuild.fetches@[i].package@ == pf[k].package@
                && cfg.execution.prebuild.fetches@[i].url@ == pf[k].url@
                && cfg.execution.prebuild.fetches@[i].output@ == pf[k].output@ by {
            lemma_merge_pack_fetches_has(f0, pm, k);
            let i = choose|i: int|
                0 <= i < merge_pack_fetches(f0, pm).len() && #[trigger] merge_pack_fetches(f0, pm)[i].0
                    == pm[k].0 && merge_pack_fetches(f0, pm)[i].1 == pm[k].1 && merge_pack_fetches(
                    f0,
                    pm,
                )[i].3 == pm[k].3;
            assert(fetch_models(cfg.execution.prebuild.fetches@)[i] == fetch_model(
                cfg.execution.prebuild.fetches@[i],
            ));
        }
        assert forall|k: int| 0 <= k < pf.len() implies list_has(
            #[trigger] cfg.execution.spec_outputs_for(pf[k].package@),
            pf[k].output@,
        ) by {
            let q = pf[k].package@;
            lemma_after_fetches_has(d0.spec_get(q), pf, k);
            lemma_after_entries_keeps(outputs_after_fetches(d0.spec_get(q), pf, q), es, q, pf[k].output@);
            let l = cfg.execution.spec_outputs_for(q);
            assert(l.contains(pf[k].output@));
        }
    }
    PolicyPackApplyReport {
        pack_id: own(pack.id.as_str()),
        hosts_added,
        fetches_added,
        packages_added,
        enabled_unchanged: true,
        profile_unchanged: true,
        note: own(
            "Policy pack merged for review. execution.enabled and profile were not changed. Dual gate still required: enable in config + weave switch --with-exec.",
        ),
    }
}

/// Each merged fetch is present after the merge.
proof fn lemma_merge_pack_fetches_has(
    fs: Seq<(Seq<char>, Seq<char>, Seq<char>, Seq<char>, Option<Seq<char>>, Option<Seq<char>>, Option<Seq<char>>)>,
    ps: Seq<(Seq<char>, Seq<char>, Seq<char>, Seq<char>, Option<Seq<char>>, Option<Seq<char>>, Option<Seq<char>>)>,
    k: int,
)
    requires
        0 <= k < ps.len(),
    ensures
        exists|i: int|
            0 <= i < merge_pack_fetches(fs, ps).len() && #[trigger] merge_pack_fetches(fs, ps)[i].0
                == ps[k].0 && merge_pack_fetches(fs, ps)[i].1 == ps[k].1 && merge_pack_fetches(fs, ps)[i].3
                == ps[k].3,
    decreases ps.len(),
{
    let p = merge_pack_fetches(fs, ps.drop_last());
    let m = ps.last();
    let r = merge_pack_fetches(fs, ps);
    let found = exists|i: int| 0 <= i < p.len() && #[trigger] p[i].0 == m.0 && p[i].1 == m.1 && p[i].3 == m.3;
    assert(r == if found { p } else { p.push(m) });
    if k < ps.len() - 1 {
        lemma_merge_pack_fetches_has(fs, ps.drop_last(), k);
        assert(ps.drop_last()[k] == ps[k]);
        let i = choose|i: int|
            0 <= i < p.len() && #[trigger] p[i].0 == ps.drop_last()[k].0 && p[i].1 == ps.drop_last()[k].1
                && p[i].3 == ps.drop_last()[k].3;
        assert(r[i] == p[i]);
        assert(0 <= i < r.len() && r[i].0 == ps[k].0 && r[i].1 == ps[k].1 && r[i].3 == ps[k].3);
    } else {
        if found {
            let i = choose|i: int| 0 <= i < p.len() && #[trigger] p[i].0 == m.0 && p[i].1 == m.1 && p[i].3 == m.3;
            assert(r[i] == p[i]);
            assert(0 <= i < r.len() && r[i].0 == ps[k].0 && r[i].1 == ps[k].1 && r[i].3 == ps[k].3);
        } else {
            assert(r[p.len() as int] == m);
            assert(0 <= p.len() < r.len() && r[p.len() as int].0 == ps[k].0);
        }
    }
}

/// `append_new` keeps what the list held.
proof fn lemma_append_new_keeps(l: Seq<Seq<char>>, xs: Seq<Seq<char>>, x: Seq<char>)
    requires
        l.contains(x),
    ensures
        append_new(l, xs).contains(x),
    decreases xs.len(),
{
    if xs.len() > 0 {
        lemma_append_new_keeps(l, xs.drop_last(), x);
        let a = append_new(l, xs.drop_last());
        if !a.contains(xs.last()) {
            let w = choose|w: int| 0 <= w < a.len() && a[w] == x;
            assert(a.push(xs.last())[w] == x);
        }
    }
}

/// Merging declared-output entries keeps the outputs already declared.
proof fn lemma_after_entries_keeps(
    o: Option<Seq<Seq<char>>>,
    es: Seq<(Seq<char>, Seq<Seq<char>>)>,
    q: Seq<char>,
    x: Seq<char>,
)
    requires
        or_empty(o).contains(x),
    ensures
        or_empty(outputs_after_entries(o, es, q)).contains(x),
    decreases es.len(),
{
    if es.len() > 0 {
        lemma_after_entries_keeps(o, es.drop_last(), q, x);
        let p = outputs_after_entries(o, es.drop_last(), q);
        if es.last().0 == q {
            lemma_append_new_keeps(or_empty(p), es.last().1, x);
        }
    }
}

/// After the fetches declared their outputs, each fetch's output is declared
/// for its package.
proof fn lemma_after_fetches_has(o: Option<Seq<Seq<char>>>, fs: Seq<PrebuildFetchSpec>, k: int)
    requires
        0 <= k < fs.len(),
    ensures
        or_empty(outputs_after_fetches(o, fs, fs[k].package@)).contains(fs[k].output@),
    decreases fs.len(),
{
    let q = fs[k].package@;
    let x = fs[k].output@;
    let p = outputs_after_fetches(o, fs.drop_last(), q);
    if k == fs.len() - 1 {
        let l = or_empty(p);
        if !l.contains(x) {
            assert(l.push(x)[l.len() as int] == x);
        }
    } else {
        lemma_after_fetches_has(o, fs.drop_last(), k);
        assert(fs.drop_last()[k] == fs[k]);
        if fs.last().package@ == q {
            let l = or_empty(p);
            if !l.contains(fs.last().output@) {
                let w = choose|w: int| 0 <= w < l.len() && l[w] == x;
                assert(l.push(fs.last().output@)[w] == x);
            }
        }
    }
}

} // verus!
