//! The materialization plan: which packages of a graph are placed into the
//! candidate tree, how, and which optional packages the host platform skips.
use vstd::prelude::*;
use crate::artifact::ArtifactId;
use crate::audit::{fit_of, platform_fit, PlatformFit};
use crate::layout::{strip_file_or_link_prefix, strip_file_or_link_prefix_spec};
use crate::lockfile::{node_list, DependencyGraph, PackageKey, PackageNode, PackageSource, SourceModel};
use crate::prebuild::HostPlatform;
use crate::text::{copy_opt, opt_view, own, starts_with, str_starts_with};
use crate::textmap::TextMap;

verus! {

/// One package to place into the tree.
#[derive(Debug)]
pub struct PlannedPackage {
    /// Install path key (`node_modules/…`).
    pub key: PackageKey,
    /// Package name when known.
    pub name: Option<String>,
    /// Tarball to extract, when one was acquired.
    pub artifact_id: Option<ArtifactId>,
    /// Link or workspace package: nothing is extracted.
    pub link_only: bool,
    /// Copy files instead of hard-linking (install scripts / native).
    pub prefer_copy: bool,
    /// Command name → path relative to the package root.
    pub bins: TextMap<String>,
    /// Link target relative to the project root (link sources).
    pub link_target: Option<String>,
    /// Looks native.
    pub likely_native: bool,
    /// Declares install scripts.
    pub has_install_script: bool,
}

/// How to build a candidate `node_modules` tree.
#[derive(Debug)]
pub struct MaterializationPlan {
    /// Planned packages in key order.
    pub packages: Vec<PlannedPackage>,
    /// Keys of packages omitted for an os/cpu mismatch, in key order.
    pub skipped_optional_platform: Vec<String>,
}

/// A planned package as plain values.
pub struct PlannedModel {
    pub key: Seq<char>,
    pub name: Option<Seq<char>>,
    pub artifact_id: Option<Seq<char>>,
    pub link_only: bool,
    pub prefer_copy: bool,
    pub bins: Seq<(Seq<char>, Seq<char>)>,
    pub link_target: Option<Seq<char>>,
    pub likely_native: bool,
    pub has_install_script: bool,
}

impl PlannedPackage {
    /// The package as plain values.
    pub open spec fn model(&self) -> PlannedModel {
        PlannedModel {
            key: self.key@,
            name: opt_view(self.name),
            artifact_id: match self.artifact_id {
                Some(a) => Some(a@),
                None => None,
            },
            link_only: self.link_only,
            prefer_copy: self.prefer_copy,
            bins: self.bins.spec_entries(),
            link_target: opt_view(self.link_target),
            likely_native: self.likely_native,
            has_install_script: self.has_install_script,
        }
    }
}

/// Planned package views.
pub open spec fn planned_models(s: Seq<PlannedPackage>) -> Seq<PlannedModel> {
    s.map_values(|p: PlannedPackage| p.model())
}

/// A node that is neither the root nor a workspace member outside `node_modules/`.
pub open spec fn placeable(n: PackageNode) -> bool {
    n.key@.len() != 0 && !(n.is_workspace && !starts_with(n.key@, "node_modules/"@))
}

/// The plan entry of a placeable node that fits the host.
pub open spec fn planned_of(n: PackageNode, artifacts: TextMap<ArtifactId>) -> PlannedModel {
    PlannedModel {
        key: n.key@,
        name: opt_view(n.name),
        artifact_id: artifacts.spec_get(n.key@),
        link_only: match n.source@ {
            SourceModel::Link(_) | SourceModel::Workspace => true,
            SourceModel::Path(_) => false,
            _ => n.is_link,
        },
        prefer_copy: n.has_install_script || n.likely_native,
        bins: n.bin.spec_entries(),
        link_target: match n.source@ {
            SourceModel::Link(t) => Some(strip_file_or_link_prefix_spec(t)),
            _ => None,
        },
        likely_native: n.likely_native,
        has_install_script: n.has_install_script,
    }
}

/// Plan entries of the listed nodes, in order.
pub open spec fn planned_packages(ns: Seq<PackageNode>, artifacts: TextMap<ArtifactId>, host: HostPlatform) -> Seq<PlannedModel>
    decreases ns.len(),
{
    if ns.len() == 0 {
        Seq::empty()
    } else {
        let p = planned_packages(ns.drop_last(), artifacts, host);
        let n = ns.last();
        if placeable(n) && fit_of(n, host) == PlatformFit::Compatible {
            p.push(planned_of(n, artifacts))
        } else {
            p
        }
    }
}

/// Keys of the listed placeable nodes that do not fit the host, in order.
pub open spec fn skipped_keys(ns: Seq<PackageNode>, host: HostPlatform) -> Seq<Seq<char>>
    decreases ns.len(),
{
    if ns.len() == 0 {
        Seq::empty()
    } else {
        let p = skipped_keys(ns.drop_last(), host);
        let n = ns.last();
        if placeable(n) && fit_of(n, host) != PlatformFit::Compatible {
            p.push(n.key@)
        } else {
            p
        }
    }
}

fn plan_package(n: &PackageNode, artifacts: &TextMap<ArtifactId>) -> (r: PlannedPackage)
    requires
        artifacts.wf(),
    ensures
        r.model() == planned_of(*n, *artifacts),
{
    let artifact_id = match artifacts.get(n.key.as_str()) {
        Some(a) => Some(a.copy()),
        None => None,
    };
    let link_only = match &n.source {
        PackageSource::Link { .. } | PackageSource::Workspace => true,
        PackageSource::Path { .. } => false,
        _ => n.is_link,
    };
    let link_target = match &n.source {
        PackageSource::Link { target } => Some(strip_file_or_link_prefix(target.as_str())),
        _ => None,
    };
    let p = PlannedPackage {
        key: n.key.copy(),
        name: copy_opt(&n.name),
        artifact_id,
        link_only,
        prefer_copy: n.has_install_script || n.likely_native,
        bins: n.bin.duplicate(),
        link_target,
        likely_native: n.likely_native,
        has_install_script: n.has_install_script,
    };
    assert(p.model().artifact_id == artifacts.spec_get(n.key@));
    p
}

impl MaterializationPlan {
    /// The plan for `graph` on `host`: every node other than the root and
    /// workspace members outside `node_modules/` is planned when its os/cpu
    /// constraints fit the host, else its key is listed as skipped.
    pub fn from_graph_for_platform(
        graph: &DependencyGraph,
        artifacts: &TextMap<ArtifactId>,
        host: &HostPlatform,
    ) -> (r: MaterializationPlan)
        requires
            artifacts.wf(),
        ensures
            planned_models(r.packages@) == planned_packages(node_list(graph.nodes), *artifacts, *host),
            r.skipped_optional_platform.deep_view() == skipped_keys(node_list(graph.nodes), *host),
    {
        let ghost ns = node_list(graph.nodes);
        let mut packages: Vec<PlannedPackage> = Vec::new();
        let mut skipped: Vec<String> = Vec::new();
        let mut i: usize = 0;
        assert(ns.take(0) =~= Seq::<PackageNode>::empty());
        assert(planned_models(packages@) =~= Seq::empty());
        assert(skipped.deep_view() =~= Seq::<Seq<char>>::empty());
        while i < graph.nodes.len()
            invariant
                i <= ns.len(),
                ns == node_list(graph.nodes),
                artifacts.wf(),
                planned_models(packages@) == planned_packages(ns.take(i as int), *artifacts, *host),
                skipped.deep_view() == skipped_keys(ns.take(i as int), *host),
            decreases ns.len() - i,
        {
            let n = graph.nodes.value_at(i);
            assert(ns[i as int] == *n);
            assert(ns.take(i + 1).drop_last() =~= ns.take(i as int));
            assert(ns.take(i + 1).last() == *n);
            let place = !n.key.is_root() && !(n.is_workspace && !str_starts_with(
                n.key.as_str(),
                "node_modules/",
            ));
            if place {
                match platform_fit(n, host) {
                    PlatformFit::Compatible => {
                        let p = plan_package(n, artifacts);
                        let ghost before = packages@;
                        packages.push(p);
                        assert(planned_models(packages@) =~= planned_models(before).push(p.model()));
                    },
                    _ => {
                        let ghost before = skipped.deep_view();
                        skipped.push(own(n.key.as_str()));
                        assert(skipped.deep_view() =~= before.push(n.key@));
                    },
                }
            }
            i += 1;
        }
        assert(ns.take(ns.len() as int) =~= ns);
        MaterializationPlan { packages, skipped_optional_platform: skipped }
    }
}

} // verus!
