//! Links placed into a candidate tree: `node_modules/.bin` entries for
//! package executables (relative symlinks, npm's Unix layout; later packages
//! in key order win a name) and symlinks for workspace/link packages. Also the
//! counters the filesystem side reports.
use vstd::prelude::*;
use crate::error::Error;
use crate::layout::{nearest_bin_dir, nearest_bin_dir_spec, package_name_in_node_modules, package_name_in_node_modules_spec};
use crate::materialize::{MaterializationPlan, PlannedPackage};
use crate::paths::{
    escapes, is_absolute, path_push, push_path, relative_path, relative_path_spec,
    sanitize_bin_name, sanitize_bin_rel, sanitize_workspace_target, valid_bin_name,
};
use crate::text::{chars_of, extend_str, opt_view, own, replace_all, string_of, trim_start_matches};
use crate::textmap::TextMap;

verus! {

/// Counters for one tree placed by hard links or copies.
#[derive(Debug)]
pub struct LinkStats {
    /// Files placed via hard link.
    pub hardlinked_files: usize,
    /// Files placed via byte copy.
    pub copied_files: usize,
    /// Directories created.
    pub directories_created: usize,
    /// Symlinks recreated.
    pub symlinks_created: usize,
}

impl LinkStats {
    /// All counters zero.
    pub fn new() -> (r: LinkStats)
        ensures
            r.hardlinked_files == 0 && r.copied_files == 0 && r.directories_created == 0
                && r.symlinks_created == 0,
    {
        LinkStats { hardlinked_files: 0, copied_files: 0, directories_created: 0, symlinks_created: 0 }
    }

    /// Add the counters of `other`.
    pub fn absorb(&mut self, other: &LinkStats)
        requires
            old(self).hardlinked_files + other.hardlinked_files <= usize::MAX,
            old(self).copied_files + other.copied_files <= usize::MAX,
            old(self).directories_created + other.directories_created <= usize::MAX,
            old(self).symlinks_created + other.symlinks_created <= usize::MAX,
        ensures
            final(self).hardlinked_files == old(self).hardlinked_files + other.hardlinked_files,
            final(self).copied_files == old(self).copied_files + other.copied_files,
            final(self).directories_created == old(self).directories_created + other.directories_created,
            final(self).symlinks_created == old(self).symlinks_created + other.symlinks_created,
    {
        self.hardlinked_files = self.hardlinked_files + other.hardlinked_files;
        self.copied_files = self.copied_files + other.copied_files;
        self.directories_created = self.directories_created + other.directories_created;
        self.symlinks_created = self.symlinks_created + other.symlinks_created;
    }
}

/// Summary of `.bin` linking for one materialization.
#[derive(Debug)]
pub struct BinLinkReport {
    /// Symlinks (or replacements) created under `.bin` directories.
    pub links_created: usize,
    /// Bin names that overwrote an existing link.
    pub conflicts_overwritten: usize,
    /// Declared bin targets missing on disk (skipped).
    pub missing_targets: usize,
}

/// Summary of workspace/link wiring.
#[derive(Debug)]
pub struct WorkspaceLinkReport {
    /// Symlinks created for link/workspace packages.
    pub links_created: usize,
    /// Link packages skipped (missing target).
    pub skipped: usize,
}

/// Summary of a materialization run.
#[derive(Debug)]
pub struct MaterializeReport {
    /// Packages placed into the destination tree.
    pub packages_materialized: usize,
    /// Link-only / skipped packages (before workspace wiring).
    pub skipped_links: usize,
    /// Unpacked-cache hits.
    pub cache_hits: usize,
    /// Unpacked-cache misses (fresh extract).
    pub cache_misses: usize,
    /// Files hard-linked from the unpacked cache.
    pub hardlinked_files: usize,
    /// Files copied from the unpacked cache.
    pub copied_files: usize,
    /// `.bin` symlinks created.
    pub bin_links: usize,
    /// Workspace/link symlinks created.
    pub workspace_links: usize,
    /// Destination root that was written.
    pub dest: String,
}

impl MaterializeReport {
    /// Number of packages materialized.
    pub fn extracted(&self) -> (r: usize)
        ensures
            r == self.packages_materialized,
    {
        self.packages_materialized
    }
}

/// Result of activating a candidate tree as the project's `node_modules`.
#[derive(Debug)]
pub struct ActivationReport {
    /// The `node_modules` path now active.
    pub node_modules: String,
    /// Whether a previous `node_modules` was replaced.
    pub replaced_existing: bool,
}

/// One `.bin` link: `link` (relative to the tree root) points at `target`
/// (relative to the link's directory); `script` is the file it runs,
/// relative to the package directory.
#[derive(Debug)]
pub struct BinLink {
    pub name: String,
    pub script: String,
    pub link: String,
    pub target: String,
}

/// A bin link as plain values.
pub struct BinLinkModel {
    pub name: Seq<char>,
    pub script: Seq<char>,
    pub link: Seq<char>,
    pub target: Seq<char>,
}

impl View for BinLink {
    type V = BinLinkModel;

    open spec fn view(&self) -> BinLinkModel {
        BinLinkModel { name: self.name@, script: self.script@, link: self.link@, target: self.target@ }
    }
}

/// Bin links by their plain values.
pub open spec fn bin_link_views(s: Seq<BinLink>) -> Seq<BinLinkModel> {
    s.map_values(|b: BinLink| b@)
}

/// Whether a planned package gets `.bin` links: anything but a link-only
/// package with neither a tarball nor a link target.
pub open spec fn gets_bins(p: PlannedPackage) -> bool {
    !(p.link_only && p.artifact_id is None && p.link_target is None)
}

/// The link for the command `name` running `rel` in the package at `key`.
pub open spec fn bin_link_of(key: Seq<char>, name: Seq<char>, rel: Seq<char>) -> BinLinkModel {
    let script = replace_all(rel, seq!['\\'], seq!['/']);
    BinLinkModel {
        name,
        script,
        link: path_push(nearest_bin_dir_spec(key), name),
        target: "../"@ + package_name_in_node_modules_spec(key) + "/"@ + script,
    }
}

/// The links for the bins `bins` of the package at `key`, in order, or the
/// path and reason of the first bin refused (its name, then its script path).
pub open spec fn bin_links_spec(key: Seq<char>, bins: Seq<(Seq<char>, Seq<char>)>) -> Result<Seq<BinLinkModel>, (Seq<char>, Seq<char>)>
    decreases bins.len(),
{
    if bins.len() == 0 {
        Ok(Seq::empty())
    } else {
        match bin_links_spec(key, bins.drop_last()) {
            Err(e) => Err(e),
            Ok(ls) => {
                let (name, rel) = bins.last();
                if !valid_bin_name(name) {
                    Err((name, "invalid bin name"@))
                } else if escapes(rel) {
                    Err((
                        rel,
                        if is_absolute(rel) {
                            "absolute bin paths are not allowed"@
                        } else {
                            "bin path traversal rejected"@
                        },
                    ))
                } else {
                    Ok(ls.push(bin_link_of(key, name, rel)))
                }
            },
        }
    }
}

/// A refused prefix refuses the whole list with the same error.
proof fn lemma_bin_links_err(key: Seq<char>, bins: Seq<(Seq<char>, Seq<char>)>, j: int)
    requires
        0 <= j <= bins.len(),
        bin_links_spec(key, bins.take(j)) is Err,
    ensures
        bin_links_spec(key, bins) == bin_links_spec(key, bins.take(j)),
    decreases bins.len() - j,
{
    if j < bins.len() {
        assert(bins.take(j + 1).drop_last() =~= bins.take(j));
        lemma_bin_links_err(key, bins, j + 1);
    } else {
        assert(bins.take(j) =~= bins);
    }
}

/// The `.bin` links for the package at `key` with bins `bins` (name →
/// script path), in key order. A bad name or script path refuses the package.
pub fn bin_links_for(key: &str, bins: &TextMap<String>) -> (r: Result<Vec<BinLink>, Error>)
    ensures
        match (r, bin_links_spec(key@, bins.spec_entries())) {
            (Ok(v), Ok(m)) => bin_link_views(v@) == m,
            (Err(e), Err((p, m))) => e matches Error::MaterializationFailed { path, reason } && path@ == p
                && reason@ == m,
            _ => false,
        },
{
    let ghost es = bins.spec_entries();
    let bin_dir = nearest_bin_dir(key);
    let pkg_name = package_name_in_node_modules(key);
    let mut out: Vec<BinLink> = Vec::new();
    let mut i: usize = 0;
    assert(es.take(0) =~= Seq::<(Seq<char>, Seq<char>)>::empty());
    assert(bin_link_views(out@) =~= Seq::<BinLinkModel>::empty());
    while i < bins.len()
        invariant
            i <= es.len(),
            es == bins.spec_entries(),
            bin_dir@ == nearest_bin_dir_spec(key@),
            pkg_name@ == package_name_in_node_modules_spec(key@),
            bin_links_spec(key@, es.take(i as int)) == Ok::<Seq<BinLinkModel>, (Seq<char>, Seq<char>)>(
                bin_link_views(out@),
            ),
        decreases es.len() - i,
    {
        let name = bins.key_at(i);
        let rel = bins.value_at(i);
        let ghost t = es.take(i + 1);
        assert(t.drop_last() =~= es.take(i as int));
        assert(t.last() == (name@, rel@));
        let n = match sanitize_bin_name(name.as_str()) {
            Ok(n) => n,
            Err(e) => {
                proof {
                    lemma_bin_links_err(key@, es, i + 1);
                }
                return Err(Error::MaterializationFailed { path: own(name.as_str()), reason: e.reason() });
            },
        };
        let script = match sanitize_bin_rel(rel.as_str()) {
            Ok(s) => s,
            Err(e) => {
                proof {
                    lemma_bin_links_err(key@, es, i + 1);
                }
                return Err(Error::MaterializationFailed { path: own(rel.as_str()), reason: e.reason() });
            },
        };
        let mut link = chars_of(bin_dir.as_str());
        push_path(&mut link, &chars_of(n.as_str()));
        let mut target = chars_of("../");
        extend_str(&mut target, pkg_name.as_str());
        extend_str(&mut target, "/");
        extend_str(&mut target, script.as_str());
        let b = BinLink { name: n, script, link: string_of(&link), target: string_of(&target) };
        let ghost before = out@;
        out.push(b);
        assert(bin_link_views(out@) =~= bin_link_views(before).push(bin_link_of(key@, name@, rel@)));
        i += 1;
    }
    assert(es.take(es.len() as int) =~= es);
    Ok(out)
}

/// The symlink a link package needs: at `link` (its key, relative to the
/// tree root), pointing at `target` (relative to the link's directory);
/// `dir` is the workspace directory relative to the project root.
#[derive(Debug)]
pub struct WorkspaceLink {
    pub link: String,
    pub dir: String,
    pub target: String,
}

/// The workspace link of a package at `key` with link target `raw`, or the
/// reason the target is refused.
pub open spec fn workspace_link_spec(key: Seq<char>, raw: Seq<char>) -> Result<(Seq<char>, Seq<char>, Seq<char>), (Seq<char>, Seq<char>)> {
    let t = trim_start_matches(raw, "./"@);
    if escapes(t) {
        Err((
            t,
            if is_absolute(t) {
                "absolute workspace link targets are not allowed"@
            } else {
                "workspace link target escapes project root"@
            },
        ))
    } else {
        let dir = replace_all(t, seq!['\\'], seq!['/']);
        Ok((key, dir, relative_path_spec(key, dir)))
    }
}

/// The workspace symlink for a planned package, when it has a link target.
pub fn workspace_link_for(pkg: &PlannedPackage) -> (r: Result<Option<WorkspaceLink>, Error>)
    ensures
        match opt_view(pkg.link_target) {
            None => r matches Ok(None),
            Some(raw) => match (r, workspace_link_spec(pkg.key@, raw)) {
                (Ok(Some(w)), Ok((l, d, t))) => w.link@ == l && w.dir@ == d && w.target@ == t,
                (Err(e), Err((p, m))) => e matches Error::MaterializationFailed { path, reason } && path@ == p
                    && reason@ == m,
                _ => false,
            },
        },
{
    let raw = match &pkg.link_target {
        None => {
            return Ok(None);
        },
        Some(t) => t,
    };
    let dir = match sanitize_workspace_target(raw.as_str()) {
        Ok(d) => d,
        Err(e) => {
            let t = crate::text::trim_start_matches_chars(&chars_of(raw.as_str()), &chars_of("./"));
            return Err(Error::MaterializationFailed { path: string_of(&t), reason: e.reason() });
        },
    };
    let target = relative_path(pkg.key.as_str(), dir.as_str());
    Ok(Some(WorkspaceLink { link: own(pkg.key.as_str()), dir, target }))
}

/// What must exist in a candidate tree after materialization.
#[derive(Debug, Clone, Copy, PartialEq, Eq, Structural)]
pub enum Expect {
    /// A symlink (workspace/link package).
    Symlink,
    /// A directory (extracted package).
    Directory,
}

/// One check of a candidate tree: `path` (relative to the tree root) must be
/// a `kind`; `label` names the package in the failure.
#[derive(Debug)]
pub struct CandidateCheck {
    pub path: String,
    pub kind: Expect,
    pub label: String,
}

/// The check a planned package needs, if any: link packages with a target
/// need their symlink, extracted packages their directory.
pub open spec fn check_of(p: PlannedPackage) -> Option<(Seq<char>, Expect, Seq<char>)> {
    let label = match opt_view(p.name) {
        Some(n) => n,
        None => p.key@,
    };
    if p.link_only {
        if p.link_target is Some {
            Some((p.key@, Expect::Symlink, label))
        } else {
            None
        }
    } else if p.artifact_id is Some {
        Some((p.key@, Expect::Directory, label))
    } else {
        None
    }
}

/// The checks of the planned packages, in order.
pub open spec fn checks_of(ps: Seq<PlannedPackage>) -> Seq<(Seq<char>, Expect, Seq<char>)>
    decreases ps.len(),
{
    if ps.len() == 0 {
        Seq::empty()
    } else {
        match check_of(ps.last()) {
            Some(c) => checks_of(ps.drop_last()).push(c),
            None => checks_of(ps.drop_last()),
        }
    }
}

/// What to verify in a candidate tree built from `plan` before activating it.
pub fn candidate_checks(plan: &MaterializationPlan) -> (r: Vec<CandidateCheck>)
    ensures
        r@.map_values(|c: CandidateCheck| (c.path@, c.kind, c.label@)) == checks_of(plan.packages@),
{
    let ghost ps = plan.packages@;
    let mut out: Vec<CandidateCheck> = Vec::new();
    let mut i: usize = 0;
    assert(ps.take(0) =~= Seq::<PlannedPackage>::empty());
    while i < plan.packages.len()
        invariant
            i <= ps.len(),
            ps == plan.packages@,
            out@.map_values(|c: CandidateCheck| (c.path@, c.kind, c.label@)) == checks_of(ps.take(i as int)),
        decreases ps.len() - i,
    {
        let p = &plan.packages[i];
        assert(ps.take(i + 1).drop_last() =~= ps.take(i as int));
        assert(ps.take(i + 1).last() == *p);
        let label = match &p.name {
            Some(n) => own(n.as_str()),
            None => own(p.key.as_str()),
        };
        let ghost before = out@.map_values(|c: CandidateCheck| (c.path@, c.kind, c.label@));
        if p.link_only {
            if p.link_target.is_some() {
                out.push(CandidateCheck { path: own(p.key.as_str()), kind: Expect::Symlink, label });
                assert(out@.map_values(|c: CandidateCheck| (c.path@, c.kind, c.label@)) =~= before.push(
                    check_of(*p)->0,
                ));
            }
        } else if p.artifact_id.is_some() {
            out.push(CandidateCheck { path: own(p.key.as_str()), kind: Expect::Directory, label });
            assert(out@.map_values(|c: CandidateCheck| (c.path@, c.kind, c.label@)) =~= before.push(
                check_of(*p)->0,
            ));
        }
        i += 1;
    }
    assert(ps.take(ps.len() as int) =~= ps);
    out
}

/// The failure for a candidate check that did not hold.
pub fn candidate_failure(check: &CandidateCheck, path: String) -> (r: Error)
    ensures
        r matches Error::MaterializationFailed { path: p, reason } && p@ == path@ && reason@ == match check.kind {
            Expect::Symlink => "expected workspace link symlink missing ("@ + check.label@ + ")"@,
            Expect::Directory => "expected package directory missing after materialization ("@ + check.label@
                + ")"@,
        },
{
    let mut m = match check.kind {
        Expect::Symlink => chars_of("expected workspace link symlink missing ("),
        Expect::Directory => chars_of("expected package directory missing after materialization ("),
    };
    extend_str(&mut m, check.label.as_str());
    extend_str(&mut m, ")");
    Error::MaterializationFailed { path, reason: string_of(&m) }
}

} // verus!
