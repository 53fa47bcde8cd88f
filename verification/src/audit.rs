//! Lockfile audits that need no I/O: peer dependencies and platform fit.
use vstd::prelude::*;
use crate::lockfile::{map_keys, node_list, resolve_dependency_key, resolve_key, DependencyGraph, PackageNode};
use crate::prebuild::HostPlatform;
use crate::text::{list_has, own, str_eq, vec_has};
use crate::textmap::TextMap;

verus! {

// ---------------------------------------------------------------------------
// Peer dependencies
// ---------------------------------------------------------------------------

/// Outcome of resolving one declared peer dependency.
#[derive(Debug)]
pub enum PeerAuditStatus {
    /// The peer resolves (Node resolution) to this package key.
    Satisfied { resolved: String },
    /// A required peer is not installed.
    MissingRequired,
    /// An optional peer (`peerDependenciesMeta.<name>.optional`) is not installed.
    MissingOptional,
}

/// A peer status as plain values.
pub enum PeerStatusModel {
    Satisfied(Seq<char>),
    MissingRequired,
    MissingOptional,
}

/// One audited peer edge.
#[derive(Debug)]
pub struct PeerAuditFinding {
    /// Key of the package declaring the peer.
    pub package: String,
    /// Peer package name.
    pub peer: String,
    /// Requested version range.
    pub requested: String,
    /// Audit outcome.
    pub status: PeerAuditStatus,
}

impl PeerAuditStatus {
    /// The status as plain values.
    pub open spec fn model(&self) -> PeerStatusModel {
        match self {
            PeerAuditStatus::Satisfied { resolved } => PeerStatusModel::Satisfied(resolved@),
            PeerAuditStatus::MissingRequired => PeerStatusModel::MissingRequired,
            PeerAuditStatus::MissingOptional => PeerStatusModel::MissingOptional,
        }
    }
}

impl PeerAuditFinding {
    /// The finding as plain values.
    pub open spec fn model(&self) -> (Seq<char>, Seq<char>, Seq<char>, PeerStatusModel) {
        (self.package@, self.peer@, self.requested@, self.status.model())
    }
}

/// Finding views.
pub open spec fn finding_models(s: Seq<PeerAuditFinding>) -> Seq<(Seq<char>, Seq<char>, Seq<char>, PeerStatusModel)> {
    s.map_values(|f: PeerAuditFinding| f.model())
}

/// Status of peer `peer` declared by `n`.
pub open spec fn peer_status(n: PackageNode, peer: Seq<char>, nodes: TextMap<PackageNode>) -> PeerStatusModel {
    match resolve_key(n.key@, peer, nodes) {
        Some(k) => PeerStatusModel::Satisfied(k),
        None => if n.peer_dependencies_meta.spec_get(peer) == Some(true) {
            PeerStatusModel::MissingOptional
        } else {
            PeerStatusModel::MissingRequired
        },
    }
}

/// Findings for the listed peers of `n`, in order.
pub open spec fn node_peer_findings(n: PackageNode, peers: Seq<Seq<char>>, nodes: TextMap<PackageNode>) -> Seq<(Seq<char>, Seq<char>, Seq<char>, PeerStatusModel)>
    decreases peers.len(),
{
    if peers.len() == 0 {
        Seq::empty()
    } else {
        node_peer_findings(n, peers.drop_last(), nodes).push(
            (
                n.key@,
                peers.last(),
                match n.peer_dependencies.spec_get(peers.last()) {
                    Some(v) => v,
                    None => Seq::empty(),
                },
                peer_status(n, peers.last(), nodes),
            ),
        )
    }
}

/// Findings for every peer of every listed node, node by node.
pub open spec fn peer_findings(ns: Seq<PackageNode>, nodes: TextMap<PackageNode>) -> Seq<(Seq<char>, Seq<char>, Seq<char>, PeerStatusModel)>
    decreases ns.len(),
{
    if ns.len() == 0 {
        Seq::empty()
    } else {
        peer_findings(ns.drop_last(), nodes) + node_peer_findings(
            ns.last(),
            map_keys(ns.last().peer_dependencies),
            nodes,
        )
    }
}

/// Number of findings with a missing required peer.
pub open spec fn count_missing_required(fs: Seq<(Seq<char>, Seq<char>, Seq<char>, PeerStatusModel)>) -> nat
    decreases fs.len(),
{
    if fs.len() == 0 {
        0
    } else {
        count_missing_required(fs.drop_last()) + if fs.last().3 is MissingRequired {
            1nat
        } else {
            0nat
        }
    }
}

/// Number of findings with a missing optional peer.
pub open spec fn count_missing_optional(fs: Seq<(Seq<char>, Seq<char>, Seq<char>, PeerStatusModel)>) -> nat
    decreases fs.len(),
{
    if fs.len() == 0 {
        0
    } else {
        count_missing_optional(fs.drop_last()) + if fs.last().3 is MissingOptional {
            1nat
        } else {
            0nat
        }
    }
}

fn push_node_peers(out: &mut Vec<PeerAuditFinding>, n: &PackageNode, nodes: &TextMap<PackageNode>)
    requires
        nodes.wf(),
        n.peer_dependencies_meta.wf(),
        n.peer_dependencies.wf(),
    ensures
        finding_models(final(out)@) == finding_models(old(out)@) + node_peer_findings(
            *n,
            map_keys(n.peer_dependencies),
            *nodes,
        ),
{
    let ghost base = finding_models(out@);
    let ghost ks = map_keys(n.peer_dependencies);
    let mut i: usize = 0;
    assert(ks.take(0) =~= Seq::<Seq<char>>::empty());
    assert(finding_models(out@) =~= base + node_peer_findings(*n, ks.take(0), *nodes));
    while i < n.peer_dependencies.len()
        invariant
            i <= ks.len(),
            ks == map_keys(n.peer_dependencies),
            nodes.wf(),
            n.peer_dependencies_meta.wf(),
            n.peer_dependencies.wf(),
            finding_models(out@) == base + node_peer_findings(*n, ks.take(i as int), *nodes),
        decreases ks.len() - i,
    {
        let peer = n.peer_dependencies.key_at(i);
        assert(ks.take(i + 1).drop_last() =~= ks.take(i as int));
        assert(ks.take(i + 1).last() == peer@);
        let status = match resolve_dependency_key(n.key.as_str(), peer.as_str(), nodes) {
            Some(k) => PeerAuditStatus::Satisfied { resolved: k },
            None => {
                let optional = match n.peer_dependencies_meta.get(peer.as_str()) {
                    Some(b) => *b,
                    None => false,
                };
                if optional {
                    PeerAuditStatus::MissingOptional
                } else {
                    PeerAuditStatus::MissingRequired
                }
            },
        };
        let requested = own(n.peer_dependencies.value_at(i).as_str());
        proof {
            crate::textmap::lemma_lookup_at(n.peer_dependencies.spec_entries(), i as int);
        }
        let f = PeerAuditFinding {
            package: own(n.key.as_str()),
            peer: own(peer.as_str()),
            requested,
            status,
        };
        let ghost before = out@;
        out.push(f);
        assert(finding_models(out@) =~= finding_models(before).push(f.model()));
        i += 1;
    }
    assert(ks.take(ks.len() as int) =~= ks);
}

impl DependencyGraph {
    /// Audit every declared peer dependency of every node, node by node.
    pub fn audit_peers(&self) -> (r: Vec<PeerAuditFinding>)
        requires
            self.wf(),
        ensures
            finding_models(r@) == peer_findings(node_list(self.nodes), self.nodes),
    {
        let ghost ns = node_list(self.nodes);
        let mut out: Vec<PeerAuditFinding> = Vec::new();
        let mut i: usize = 0;
        assert(ns.take(0) =~= Seq::<PackageNode>::empty());
        assert(finding_models(out@) =~= Seq::empty());
        while i < self.nodes.len()
            invariant
                i <= ns.len(),
                ns == node_list(self.nodes),
                self.wf(),
                finding_models(out@) == peer_findings(ns.take(i as int), self.nodes),
            decreases ns.len() - i,
        {
            let n = self.nodes.value_at(i);
            assert(ns[i as int] == *n);
            proof {
                crate::textmap::lemma_lookup_at(self.nodes.spec_entries(), i as int);
                assert(self.nodes.spec_get(self.nodes.spec_entries()[i as int].0) == Some(*n));
            }
            assert(ns.take(i + 1).drop_last() =~= ns.take(i as int));
            assert(ns.take(i + 1).last() == *n);
            push_node_peers(&mut out, n, &self.nodes);
            i += 1;
        }
        assert(ns.take(ns.len() as int) =~= ns);
        out
    }
}

// ---------------------------------------------------------------------------
// Platform fit
// ---------------------------------------------------------------------------

/// How a package's `os` / `cpu` constraints fit the host.
#[derive(Debug, Clone, Copy, PartialEq, Eq, Structural)]
pub enum PlatformFit {
    /// No constraint excludes the host.
    Compatible,
    /// Incompatible, but the package is optional: skip it.
    SkipOptional,
    /// Incompatible and required.
    RejectRequired,
}

/// Whether an entry of an npm constraint list is a `!`-negation.
pub open spec fn negated(e: Seq<char>) -> bool {
    e.len() > 0 && e[0] == '!'
}

/// npm constraint semantics: the host value must not be negated (`!value`)
/// and, when the list names any value plainly, must be one of them. An empty
/// list allows everything.
pub open spec fn constraint_allows(list: Seq<Seq<char>>, value: Seq<char>) -> bool {
    &&& !list_has(list, seq!['!'] + value)
    &&& ((forall|i: int| 0 <= i < list.len() ==> negated(#[trigger] list[i])) || list_has(list, value))
}

/// Platform fit of a node on `host`.
pub open spec fn fit_of(n: PackageNode, host: HostPlatform) -> PlatformFit {
    if constraint_allows(n.os.deep_view(), host.os@) && constraint_allows(n.cpu.deep_view(), host.cpu@) {
        PlatformFit::Compatible
    } else if n.optional {
        PlatformFit::SkipOptional
    } else {
        PlatformFit::RejectRequired
    }
}

fn allows(list: &Vec<String>, value: &str) -> (r: bool)
    ensures
        r == constraint_allows(list.deep_view(), value@),
{
    let mut neg = vec!['!'];
    assert(neg@ =~= seq!['!']);
    crate::text::extend_str(&mut neg, value);
    let negs = crate::text::string_of(&neg);
    assert(negs@ =~= seq!['!'] + value@);
    if vec_has(list, negs.as_str()) {
        return false;
    }
    let mut i: usize = 0;
    let mut all_negated = true;
    while i < list.len()
        invariant
            i <= list.len(),
            all_negated == forall|j: int| 0 <= j < i ==> negated(#[trigger] list.deep_view()[j]),
        decreases list.len() - i,
    {
        let s = list[i].as_str();
        let c = crate::text::chars_of(s);
        assert(list.deep_view()[i as int] == c@);
        if !(c.len() > 0 && c[0] == '!') {
            all_negated = false;
        }
        i += 1;
    }
    assert(i == list.deep_view().len());
    if all_negated {
        true
    } else {
        vec_has(list, value)
    }
}

/// Whether `node` may be installed on `host`, and if not, whether it can be skipped.
pub fn platform_fit(node: &PackageNode, host: &HostPlatform) -> (r: PlatformFit)
    ensures
        r == fit_of(*node, *host),
{
    if allows(&node.os, host.os.as_str()) && allows(&node.cpu, host.cpu.as_str()) {
        PlatformFit::Compatible
    } else if node.optional {
        PlatformFit::SkipOptional
    } else {
        PlatformFit::RejectRequired
    }
}

/// Number of listed nodes that `host` rejects although they are required.
pub open spec fn count_rejected(ns: Seq<PackageNode>, host: HostPlatform) -> nat
    decreases ns.len(),
{
    if ns.len() == 0 {
        0
    } else {
        count_rejected(ns.drop_last(), host) + if fit_of(ns.last(), host) == PlatformFit::RejectRequired {
            1nat
        } else {
            0nat
        }
    }
}

/// Number of listed nodes that `host` skips as optional.
pub open spec fn count_skipped(ns: Seq<PackageNode>, host: HostPlatform) -> nat
    decreases ns.len(),
{
    if ns.len() == 0 {
        0
    } else {
        count_skipped(ns.drop_last(), host) + if fit_of(ns.last(), host) == PlatformFit::SkipOptional {
            1nat
        } else {
            0nat
        }
    }
}

/// Count the graph's nodes that are rejected, and those skipped, on `host`.
pub fn platform_counts(graph: &DependencyGraph, host: &HostPlatform) -> (r: (usize, usize))
    ensures
        r.0 == count_rejected(node_list(graph.nodes), *host),
        r.1 == count_skipped(node_list(graph.nodes), *host),
{
    let ghost ns = node_list(graph.nodes);
    let mut reject: usize = 0;
    let mut skip: usize = 0;
    let mut i: usize = 0;
    while i < graph.nodes.len()
        invariant
            i <= ns.len(),
            ns == node_list(graph.nodes),
            reject == count_rejected(ns.take(i as int), *host),
            skip == count_skipped(ns.take(i as int), *host),
            reject + skip <= i,
        decreases ns.len() - i,
    {
        let n = graph.nodes.value_at(i);
        assert(ns[i as int] == *n);
        assert(ns.take(i + 1).drop_last() =~= ns.take(i as int));
        match platform_fit(n, host) {
            PlatformFit::RejectRequired => {
                reject += 1;
            },
            PlatformFit::SkipOptional => {
                skip += 1;
            },
            PlatformFit::Compatible => {},
        }
        i += 1;
    }
    assert(ns.take(ns.len() as int) =~= ns);
    (reject, skip)
}

/// Count findings with a missing required peer and with a missing optional peer.
pub fn missing_peer_counts(fs: &Vec<PeerAuditFinding>) -> (r: (usize, usize))
    ensures
        r.0 == count_missing_required(finding_models(fs@)),
        r.1 == count_missing_optional(finding_models(fs@)),
{
    let ghost ms = finding_models(fs@);
    let mut req: usize = 0;
    let mut opt: usize = 0;
    let mut i: usize = 0;
    while i < fs.len()
        invariant
            i <= fs@.len(),
            ms == finding_models(fs@),
            req == count_missing_required(ms.take(i as int)),
            opt == count_missing_optional(ms.take(i as int)),
            req + opt <= i,
        decreases fs@.len() - i,
    {
        assert(ms.take(i + 1).drop_last() =~= ms.take(i as int));
        assert(ms[i as int] == fs@[i as int].model());
        match fs[i].status {
            PeerAuditStatus::MissingRequired => {
                req += 1;
            },
            PeerAuditStatus::MissingOptional => {
                opt += 1;
            },
            _ => {},
        }
        i += 1;
    }
    assert(ms.take(ms.len() as int) =~= ms);
    (req, opt)
}

} // verus!
