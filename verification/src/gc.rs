//! Reachability decisions of store garbage collection: the root set, and
//! which stored objects and unpacked entries are removed. An artifact that is
//! reachable from an environment or a pin is never removed.
use vstd::prelude::*;
use crate::artifact::ArtifactId;
use crate::text::{list_has, lower, vec_has};
use crate::textmap::{lemma_is_sorted_set, sort_dedup, sorted_set};

verus! {

/// Options of a collection run.
#[derive(Debug)]
pub struct GcOptions {
    /// Report without deleting reachability-based objects (temps are still removed).
    pub dry_run: bool,
}

/// Summary of a collection run.
#[derive(Debug)]
pub struct GcReport {
    /// Store object root inspected.
    pub store_root: String,
    /// Temporary object files removed.
    pub removed_object_temps: usize,
    /// Incomplete unpacked directories removed.
    pub removed_unpacked_incomplete: usize,
    /// Ready markers removed alongside incomplete directories.
    pub removed_unpacked_markers: usize,
    /// Unreachable objects removed.
    pub removed_unreachable_objects: usize,
    /// Unreachable unpacked entries removed.
    pub removed_unreachable_unpacked: usize,
    /// Artifact ids treated as roots.
    pub root_artifacts: usize,
    /// Projects contributing environments.
    pub root_projects: usize,
    /// Whether this was a dry run.
    pub dry_run: bool,
}

/// The ids among `texts` that parse, in lower case, in order.
pub open spec fn parsed_ids(texts: Seq<Seq<char>>) -> Seq<Seq<char>>
    decreases texts.len(),
{
    if texts.len() == 0 {
        Seq::empty()
    } else {
        let p = parsed_ids(texts.drop_last());
        let t = texts.last();
        if crate::artifact::valid_id_input(t) {
            p.push(lower(t))
        } else {
            p
        }
    }
}

fn push_parsed(out: &mut Vec<String>, texts: &Vec<String>)
    ensures
        final(out).deep_view() == old(out).deep_view() + parsed_ids(texts.deep_view()),
{
    let ghost start = out.deep_view();
    let ghost tv = texts.deep_view();
    let mut i: usize = 0;
    assert(tv.take(0) =~= Seq::<Seq<char>>::empty());
    assert(out.deep_view() =~= start + parsed_ids(tv.take(0)));
    while i < texts.len()
        invariant
            i <= tv.len(),
            tv == texts.deep_view(),
            out.deep_view() == start + parsed_ids(tv.take(i as int)),
        decreases tv.len() - i,
    {
        let t = texts[i].as_str();
        assert(tv[i as int] == t@);
        assert(tv.take(i + 1).drop_last() =~= tv.take(i as int));
        match ArtifactId::parse(t) {
            Ok(id) => {
                let ghost before = out.deep_view();
                out.push(crate::text::own(id.as_str()));
                assert(out.deep_view() =~= before.push(lower(t@)));
            },
            Err(_) => {},
        }
        i += 1;
    }
    assert(tv.take(tv.len() as int) =~= tv);
}

/// The root set: the distinct ids recorded by environments and pins that
/// parse, in increasing order. Unparsable entries are ignored.
pub fn gc_roots(environment_ids: &Vec<String>, pins: &Vec<String>) -> (r: Vec<String>)
    ensures
        r.deep_view() == sorted_set(parsed_ids(environment_ids.deep_view()) + parsed_ids(pins.deep_view())),
{
    let mut out: Vec<String> = Vec::new();
    assert(out.deep_view() =~= Seq::<Seq<char>>::empty());
    push_parsed(&mut out, environment_ids);
    push_parsed(&mut out, pins);
    assert(out.deep_view() =~= parsed_ids(environment_ids.deep_view()) + parsed_ids(pins.deep_view()));
    sort_dedup(&out)
}

/// Items of `ids` that are not roots, in order.
pub open spec fn unrooted(ids: Seq<Seq<char>>, roots: Seq<Seq<char>>) -> Seq<Seq<char>>
    decreases ids.len(),
{
    if ids.len() == 0 {
        Seq::empty()
    } else {
        let p = unrooted(ids.drop_last(), roots);
        if list_has(roots, ids.last()) {
            p
        } else {
            p.push(ids.last())
        }
    }
}

/// What a collection removes.
#[derive(Debug)]
pub struct GcPlan {
    /// Stored objects to remove, in listing order.
    pub remove_objects: Vec<String>,
    /// Unpacked entries to remove, in listing order.
    pub remove_unpacked: Vec<String>,
}

fn unrooted_of(ids: &Vec<String>, roots: &Vec<String>) -> (r: Vec<String>)
    ensures
        r.deep_view() == unrooted(ids.deep_view(), roots.deep_view()),
{
    let ghost iv = ids.deep_view();
    let mut out: Vec<String> = Vec::new();
    let mut i: usize = 0;
    assert(iv.take(0) =~= Seq::<Seq<char>>::empty());
    assert(out.deep_view() =~= unrooted(iv.take(0), roots.deep_view()));
    while i < ids.len()
        invariant
            i <= iv.len(),
            iv == ids.deep_view(),
            out.deep_view() == unrooted(iv.take(i as int), roots.deep_view()),
        decreases iv.len() - i,
    {
        assert(iv.take(i + 1).drop_last() =~= iv.take(i as int));
        assert(iv.take(i + 1).last() == ids@[i as int]@);
        if !vec_has(roots, ids[i].as_str()) {
            let ghost before = out.deep_view();
            out.push(crate::text::own(ids[i].as_str()));
            assert(out.deep_view() =~= before.push(ids@[i as int]@));
        }
        i += 1;
    }
    assert(iv.take(iv.len() as int) =~= iv);
    out
}

/// Decide what a collection removes: every listed object and every listed
/// unpacked entry that is not a root.
pub fn plan_gc(object_ids: &Vec<String>, unpacked_ids: &Vec<String>, roots: &Vec<String>) -> (r: GcPlan)
    ensures
        r.remove_objects.deep_view() == unrooted(object_ids.deep_view(), roots.deep_view()),
        r.remove_unpacked.deep_view() == unrooted(unpacked_ids.deep_view(), roots.deep_view()),
{
    GcPlan { remove_objects: unrooted_of(object_ids, roots), remove_unpacked: unrooted_of(unpacked_ids, roots) }
}

/// The report of a collection that removed what `plan` lists (or, on a dry
/// run, would have), after removing temporary and incomplete entries as
/// counted, with `roots` as the root set gathered from `root_projects`
/// projects.
pub fn gc_report(
    store_root: String,
    removed_object_temps: usize,
    removed_unpacked_incomplete: usize,
    removed_unpacked_markers: usize,
    plan: &GcPlan,
    roots: &Vec<String>,
    root_projects: usize,
    dry_run: bool,
) -> (r: GcReport)
    ensures
        r.store_root@ == store_root@,
        r.removed_object_temps == removed_object_temps,
        r.removed_unpacked_incomplete == removed_unpacked_incomplete,
        r.removed_unpacked_markers == removed_unpacked_markers,
        r.removed_unreachable_objects == plan.remove_objects@.len(),
        r.removed_unreachable_unpacked == plan.remove_unpacked@.len(),
        r.root_artifacts == roots@.len(),
        r.root_projects == root_projects,
        r.dry_run == dry_run,
{
    GcReport {
        store_root,
        removed_object_temps,
        removed_unpacked_incomplete,
        removed_unpacked_markers,
        removed_unreachable_objects: plan.remove_objects.len(),
        removed_unreachable_unpacked: plan.remove_unpacked.len(),
        root_artifacts: roots.len(),
        root_projects,
        dry_run,
    }
}

/// An object-store file left by an interrupted write: a hidden name holding
/// `.tmp-`.
pub open spec fn object_temp_spec(name: Seq<char>) -> bool {
    crate::text::starts_with(name, "."@) && crate::text::has_sub(name, ".tmp-"@)
}

/// Whether the object-store file `name` is left by an interrupted write.
pub fn is_object_temp(name: &str) -> (r: bool)
    ensures
        r == object_temp_spec(name@),
{
    crate::text::str_starts_with(name, ".") && crate::text::str_contains(name, ".tmp-")
}

/// What collection does with one entry of an unpacked-cache shard.
#[derive(Debug, Clone, Copy, PartialEq, Eq, Structural)]
pub enum UnpackedCleanup {
    /// Leave it.
    Keep,
    /// Remove the directory (an interrupted unpack, or a package without its ready marker).
    RemoveDir,
    /// Remove the ready marker (its package directory is gone).
    RemoveMarker,
}

/// The action for the shard entry `name`: a `.tmp-` directory, or a visible
/// directory without its `.ready` marker, is removed; a `.ready` marker
/// whose package directory is missing is removed; anything else stays.
pub open spec fn unpacked_cleanup_spec(name: Seq<char>, is_dir: bool, has_marker: bool, marker_pkg_is_dir: bool) -> UnpackedCleanup {
    if crate::text::starts_with(name, ".tmp-"@) && is_dir {
        UnpackedCleanup::RemoveDir
    } else if is_dir && !crate::text::starts_with(name, "."@) && !has_marker {
        UnpackedCleanup::RemoveDir
    } else if crate::text::ends_with(name, ".ready"@) && !marker_pkg_is_dir {
        UnpackedCleanup::RemoveMarker
    } else {
        UnpackedCleanup::Keep
    }
}

/// Decide what collection does with the unpacked-cache shard entry `name`
/// (`has_marker`: its `.ready` marker exists; `marker_pkg_is_dir`: for a
/// marker, its package directory exists).
pub fn unpacked_cleanup(name: &str, is_dir: bool, has_marker: bool, marker_pkg_is_dir: bool) -> (r: UnpackedCleanup)
    ensures
        r == unpacked_cleanup_spec(name@, is_dir, has_marker, marker_pkg_is_dir),
{
    if crate::text::str_starts_with(name, ".tmp-") && is_dir {
        UnpackedCleanup::RemoveDir
    } else if is_dir && !crate::text::str_starts_with(name, ".") && !has_marker {
        UnpackedCleanup::RemoveDir
    } else if crate::text::str_ends_with(name, ".ready") && !marker_pkg_is_dir {
        UnpackedCleanup::RemoveMarker
    } else {
        UnpackedCleanup::Keep
    }
}

/// Collection never removes a root, removes only listed ids, and removes
/// every listed id that is not a root.
pub proof fn lemma_gc_spares_roots(ids: Seq<Seq<char>>, roots: Seq<Seq<char>>, x: Seq<char>)
    ensures
        unrooted(ids, roots).contains(x) <==> (ids.contains(x) && !list_has(roots, x)),
    decreases ids.len(),
{
    if ids.len() > 0 {
        lemma_gc_spares_roots(ids.drop_last(), roots, x);
        let p = unrooted(ids.drop_last(), roots);
        if ids.contains(x) && !ids.drop_last().contains(x) {
            let k = choose|k: int| 0 <= k < ids.len() && ids[k] == x;
            if k < ids.len() - 1 {
                assert(ids.drop_last()[k] == x);
            }
        }
        if ids.drop_last().contains(x) {
            let k = choose|k: int| 0 <= k < ids.drop_last().len() && ids.drop_last()[k] == x;
            assert(ids[k] == x);
        }
        if !list_has(roots, ids.last()) {
            if p.contains(x) {
                let k = choose|k: int| 0 <= k < p.len() && p[k] == x;
                assert(p.push(ids.last())[k] == x);
            }
            if p.push(ids.last()).contains(x) && x != ids.last() {
                let k = choose|k: int| 0 <= k < p.len() + 1 && p.push(ids.last())[k] == x;
                assert(p[k] == x);
            }
            assert(p.push(ids.last())[p.len() as int] == ids.last());
        }
        assert(ids[ids.len() - 1] == ids.last());
    }
}

} // verus!
