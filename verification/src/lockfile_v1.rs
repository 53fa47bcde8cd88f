//! lockfileVersion 1: the nested `dependencies` tree, flattened into the
//! path-keyed packages of the later formats.
use vstd::prelude::*;
use crate::lockfile::{
    build_edges_from_nodes, edge_views, edges_sorted, all_edges, entry_wf, has_marker_key,
    insert_entries, last_with_key, link_resolved, native_package_name, node_list, node_of_entry,
    node_wf, nodes_over, source_of, BinField, DependencyGraph, LockfileKind, PackageKey,
    PackageNode, PackageSource, PackagesEntry, SourceModel, StringOrVec,
};
use crate::layout::{last_name_part, nm};
use crate::text::{chars_of, extend_str, has_sub, occurs_at, opt_view, own, starts_with, string_of};
use crate::textmap::TextMap;

verus! {

/// One package of a lockfileVersion 1 `dependencies` tree (already decoded).
#[derive(Debug)]
pub struct V1Dep {
    /// `version`.
    pub version: Option<String>,
    /// `resolved`.
    pub resolved: Option<String>,
    /// `integrity`.
    pub integrity: Option<String>,
    /// `optional`.
    pub optional: bool,
    /// `dev`.
    pub dev: bool,
    /// `requires` entries whose values are strings.
    pub required: TextMap<String>,
    /// `bin`.
    pub bin: BinField,
    /// Nested `dependencies`, in order.
    pub dependencies: Vec<(String, V1Dep)>,
}

/// The maps of one package are well formed.
pub open spec fn dep_wf(d: V1Dep) -> bool {
    &&& d.required.wf()
    &&& (d.bin matches BinField::Table(m) ==> m.wf())
}

/// The maps of every package of the tree are well formed.
pub open spec fn v1_wf(ds: Seq<(String, V1Dep)>) -> bool
    decreases ds,
{
    if ds.len() == 0 {
        true
    } else {
        v1_wf(ds.drop_last()) && dep_wf(ds.last().1) && v1_wf(ds.last().1.dependencies@)
    }
}

/// Key of a package named `name` installed under `parent`.
pub open spec fn v1_key(parent: Seq<char>, name: Seq<char>) -> Seq<char> {
    parent + "/"@ + name
}

/// Where the nested dependencies of the package at `key` are installed.
pub open spec fn v1_nested(key: Seq<char>) -> Seq<char> {
    key + "/node_modules"@
}

/// The packages of the tree `ds` installed under `parent`, depth first in
/// order: key, name and package.
pub open spec fn v1_flat(parent: Seq<char>, ds: Seq<(String, V1Dep)>) -> Seq<(Seq<char>, Seq<char>, V1Dep)>
    decreases ds,
{
    if ds.len() == 0 {
        Seq::empty()
    } else {
        let last = ds.last();
        let key = v1_key(parent, last.0@);
        v1_flat(parent, ds.drop_last()) + seq![(key, last.0@, last.1)] + v1_flat(
            v1_nested(key),
            last.1.dependencies@,
        )
    }
}

/// The packages-format entry of a package named `name`.
pub open spec fn entry_of_v1(e: PackagesEntry, name: Seq<char>, d: V1Dep) -> bool {
    &&& opt_view(e.name) == Some(name)
    &&& e.version == d.version
    &&& e.resolved == d.resolved
    &&& e.integrity == d.integrity
    &&& e.dependencies == d.required
    &&& e.dev_dependencies.wf() && e.dev_dependencies.spec_entries().len() == 0
    &&& e.optional_dependencies.wf() && e.optional_dependencies.spec_entries().len() == 0
    &&& e.peer_dependencies.wf() && e.peer_dependencies.spec_entries().len() == 0
    &&& e.peer_dependencies_meta.wf() && e.peer_dependencies_meta.spec_entries().len() == 0
    &&& !e.has_install_script
    &&& e.optional == d.optional
    &&& e.dev == d.dev
    &&& !e.peer
    &&& !e.link
    &&& e.cpu is Absent
    &&& e.os is Absent
    &&& e.bundled_dependencies@.len() == 0
    &&& e.bundle_dependencies_alias@.len() == 0
    &&& e.bin == d.bin
}

/// Entries matching the flattened packages one for one.
pub open spec fn flat_rel(es: Seq<(String, PackagesEntry)>, fs: Seq<(Seq<char>, Seq<char>, V1Dep)>) -> bool {
    &&& es.len() == fs.len()
    &&& forall|i: int|
        0 <= i < es.len() ==> (#[trigger] es[i]).0@ == fs[i].0 && entry_of_v1(es[i].1, fs[i].1, fs[i].2)
            && entry_wf(es[i].1)
}

/// Index of the last flattened package with key `k`, or -1.
pub open spec fn v1_last(fs: Seq<(Seq<char>, Seq<char>, V1Dep)>, k: Seq<char>) -> int
    decreases fs.len(),
{
    if fs.len() == 0 {
        -1
    } else if fs.last().0 == k {
        fs.len() - 1
    } else {
        v1_last(fs.drop_last(), k)
    }
}

/// The node of a nested-tree package named `name` installed at `key`.
pub open spec fn v1_node(n: PackageNode, key: Seq<char>, name: Seq<char>, d: V1Dep) -> bool {
    &&& node_wf(n)
    &&& n.key@ == key
    &&& opt_view(n.name) == Some(name)
    &&& n.version == d.version
    &&& n.source@ == source_of(opt_view(d.resolved), link_resolved(opt_view(d.resolved)), false)
    &&& n.integrity == d.integrity
    &&& n.dependencies == d.required
    &&& n.dev_dependencies.spec_entries().len() == 0
    &&& n.optional_dependencies.spec_entries().len() == 0
    &&& n.peer_dependencies.spec_entries().len() == 0
    &&& n.peer_dependencies_meta.spec_entries().len() == 0
    &&& !n.has_install_script
    &&& n.optional == d.optional
    &&& n.dev == d.dev
    &&& !n.peer
    &&& n.cpu@.len() == 0
    &&& n.os@.len() == 0
    &&& n.bundled_dependencies@.len() == 0
    &&& !n.is_workspace
    &&& n.is_link == link_resolved(opt_view(d.resolved))
    &&& n.likely_native == (native_package_name(name) || has_marker_key(d.required))
    &&& match d.bin {
        BinField::Absent => n.bin.spec_entries().len() == 0,
        BinField::Path(path) => n.bin.spec_entries() == seq![(last_name_part(name), path@)],
        BinField::Table(m) => n.bin == m,
    }
}

/// The range the root records for a top-level package: its version, else `*`.
pub open spec fn v1_range(d: V1Dep) -> Seq<char> {
    match opt_view(d.version) {
        Some(v) => v,
        None => "*"@,
    }
}

/// The root's dependency on `q`: the range of the last top-level package named `q`.
pub open spec fn v1_root_dep(ds: Seq<(String, V1Dep)>, q: Seq<char>) -> Option<Seq<char>>
    decreases ds.len(),
{
    if ds.len() == 0 {
        None
    } else if ds.last().0@ == q {
        Some(v1_range(ds.last().1))
    } else {
        v1_root_dep(ds.drop_last(), q)
    }
}

/// The root node of a nested lockfile with top-level `name`, `version` and packages `ds`.
pub open spec fn v1_root_node(n: PackageNode, name: Option<String>, version: Option<String>, ds: Seq<(String, V1Dep)>) -> bool {
    &&& node_wf(n)
    &&& n.key@ == Seq::<char>::empty()
    &&& n.name == name
    &&& n.version == version
    &&& n.source@ == SourceModel::Workspace
    &&& n.integrity is None
    &&& forall|q: Seq<char>| #[trigger] n.dependencies.spec_get(q) == v1_root_dep(ds, q)
    &&& n.dev_dependencies.spec_entries().len() == 0
    &&& n.optional_dependencies.spec_entries().len() == 0
    &&& n.peer_dependencies.spec_entries().len() == 0
    &&& n.peer_dependencies_meta.spec_entries().len() == 0
    &&& !n.has_install_script
    &&& !n.optional
    &&& !n.dev
    &&& !n.peer
    &&& n.cpu@.len() == 0
    &&& n.os@.len() == 0
    &&& n.bundled_dependencies@.len() == 0
    &&& n.is_workspace
    &&& !n.is_link
    &&& !n.likely_native
    &&& n.bin.spec_entries().len() == 0
}

/// The packages of a well-formed tree are well formed, and so are their trees.
proof fn lemma_v1_wf_at(ds: Seq<(String, V1Dep)>, i: int)
    requires
        v1_wf(ds),
        0 <= i < ds.len(),
    ensures
        dep_wf(ds[i].1),
        v1_wf(ds[i].1.dependencies@),
    decreases ds.len(),
{
    if i < ds.len() - 1 {
        lemma_v1_wf_at(ds.drop_last(), i);
        assert(ds.drop_last()[i] == ds[i]);
    }
}

/// A parent directory of the nested tree.
pub open spec fn v1_parent(p: Seq<char>) -> bool {
    p == "node_modules"@ || starts_with(p, nm())
}

/// Every flattened key lies under `node_modules/`.
proof fn lemma_v1_keys(parent: Seq<char>, ds: Seq<(String, V1Dep)>)
    requires
        v1_parent(parent),
    ensures
        forall|i: int| 0 <= i < v1_flat(parent, ds).len() ==> starts_with(#[trigger] v1_flat(parent, ds)[i].0, nm()),
    decreases ds,
{
    reveal_strlit("node_modules");
    reveal_strlit("node_modules/");
    reveal_strlit("/");
    reveal_strlit("/node_modules");
    if ds.len() > 0 {
        let last = ds.last();
        let key = v1_key(parent, last.0@);
        let a = v1_flat(parent, ds.drop_last());
        let b = v1_flat(v1_nested(key), last.1.dependencies@);
        assert(parent.len() >= 12);
        assert(key.len() >= 13);
        assert(key.subrange(0, 13) =~= nm()) by {
            if parent == "node_modules"@ {
            } else {
                assert(parent.subrange(0, 13) == nm());
                assert forall|j: int| 0 <= j < 13 implies key.subrange(0, 13)[j] == nm()[j] by {
                    assert(key[j] == parent[j]);
                    assert(parent.subrange(0, 13)[j] == parent[j]);
                }
            }
        }
        assert(starts_with(key, nm()));
        assert(v1_parent(v1_nested(key))) by {
            assert(v1_nested(key).subrange(0, 13) =~= key.subrange(0, 13));
        }
        lemma_v1_keys(parent, ds.drop_last());
        lemma_v1_keys(v1_nested(key), last.1.dependencies@);
        let f = v1_flat(parent, ds);
        assert(f == a + seq![(key, last.0@, last.1)] + b);
        assert forall|i: int| 0 <= i < f.len() implies starts_with(#[trigger] f[i].0, nm()) by {
            if i < a.len() {
                assert(f[i] == a[i]);
            } else if i == a.len() {
                assert(f[i].0 == key);
            } else {
                assert(f[i] == b[i - a.len() - 1]);
            }
        }
    }
}

/// The last entry with a key is the last flattened package with that key.
proof fn lemma_flat_last(es: Seq<(String, PackagesEntry)>, fs: Seq<(Seq<char>, Seq<char>, V1Dep)>, k: Seq<char>)
    requires
        flat_rel(es, fs),
    ensures
        last_with_key(es, k) == v1_last(fs, k),
    decreases es.len(),
{
    if es.len() > 0 {
        assert(es.last() == es[es.len() - 1]);
        assert(flat_rel(es.drop_last(), fs.drop_last())) by {
            assert forall|i: int| 0 <= i < es.drop_last().len() implies (#[trigger] es.drop_last()[i]).0@
                == fs.drop_last()[i].0 && entry_of_v1(es.drop_last()[i].1, fs.drop_last()[i].1, fs.drop_last()[i].2)
                && entry_wf(es.drop_last()[i].1) by {
                assert(es.drop_last()[i] == es[i]);
                assert(fs.drop_last()[i] == fs[i]);
            }
        }
        lemma_flat_last(es.drop_last(), fs.drop_last(), k);
    }
}

/// `v1_last` is an index of the packages holding `k`.
proof fn lemma_v1_last(fs: Seq<(Seq<char>, Seq<char>, V1Dep)>, k: Seq<char>)
    ensures
        -1 <= v1_last(fs, k) < fs.len(),
        v1_last(fs, k) >= 0 ==> fs[v1_last(fs, k)].0 == k,
    decreases fs.len(),
{
    if fs.len() > 0 && fs.last().0 != k {
        lemma_v1_last(fs.drop_last(), k);
    }
}

/// Append the packages-format entries of the tree `deps` installed under
/// `parent`, depth first in order.
fn flatten_v1(out: &mut Vec<(String, PackagesEntry)>, parent: &str, deps: Vec<(String, V1Dep)>)
    requires
        v1_wf(deps@),
    ensures
        final(out)@.len() >= old(out)@.len(),
        final(out)@.take(old(out)@.len() as int) == old(out)@,
        flat_rel(final(out)@.skip(old(out)@.len() as int), v1_flat(parent@, deps@)),
    decreases deps,
{
    let ghost d0 = deps;
    let ghost orig = deps@;
    let ghost start = out@;
    let mut rest = deps;
    let total = rest.len();
    let mut k: usize = 0;
    assert(rest@ =~= orig.skip(0));
    assert(orig.take(0) =~= Seq::<(String, V1Dep)>::empty());
    assert(out@.skip(start.len() as int) =~= Seq::<(String, PackagesEntry)>::empty());
    assert(out@.take(start.len() as int) =~= start);
    while rest.len() > 0
        invariant
            k <= orig.len(),
            orig.len() == total,
            rest@ == orig.skip(k as int),
            orig == d0@,
            d0 == deps,
            v1_wf(orig),
            out@.len() >= start.len(),
            out@.take(start.len() as int) == start,
            flat_rel(out@.skip(start.len() as int), v1_flat(parent@, orig.take(k as int))),
        decreases rest@.len(),
    {
        let ghost rv = rest@;
        let (name, dep) = rest.remove(0);
        proof {
            rv.remove_ensures(0);
            assert(rest@ =~= orig.skip(k + 1));
            assert(orig[k as int] == rv[0]);
            lemma_v1_wf_at(orig, k as int);
        }
        let ghost nv = name@;
        let ghost dv = dep;
        let mut key = chars_of(parent);
        extend_str(&mut key, "/");
        extend_str(&mut key, name.as_str());
        let key_s = string_of(&key);
        let mut nested = chars_of(key_s.as_str());
        extend_str(&mut nested, "/node_modules");
        let nested_s = string_of(&nested);
        let V1Dep { version, resolved, integrity, optional, dev, required, bin, dependencies } = dep;
        let entry = PackagesEntry {
            name: Some(name),
            version,
            resolved,
            integrity,
            dependencies: required,
            dev_dependencies: TextMap::new(),
            optional_dependencies: TextMap::new(),
            peer_dependencies: TextMap::new(),
            peer_dependencies_meta: TextMap::new(),
            has_install_script: false,
            optional,
            dev,
            peer: false,
            link: false,
            cpu: StringOrVec::Absent,
            os: StringOrVec::Absent,
            bundled_dependencies: Vec::new(),
            bundle_dependencies_alias: Vec::new(),
            bin,
        };
        let ghost ev = (key_s, entry);
        let ghost mid = out@;
        out.push((key_s, entry));
        let ghost pushed = out@;
        proof {
            assert(dependencies == d0@[k as int].1.dependencies);
            assert(decreases_to!(d0 => d0@[k as int].1.dependencies));
        }
        flatten_v1(out, nested_s.as_str(), dependencies);
        proof {
            let t = orig.take(k + 1);
            assert(t.drop_last() =~= orig.take(k as int));
            assert(t.last() == orig[k as int]);
            let kv = v1_key(parent@, nv);
            assert(key_s@ == kv);
            assert(nested_s@ == v1_nested(kv));
            let fa = v1_flat(parent@, orig.take(k as int));
            let fb = v1_flat(v1_nested(kv), dv.dependencies@);
            assert(v1_flat(parent@, t) == fa + seq![(kv, nv, dv)] + fb);
            let ea = mid.skip(start.len() as int);
            let eb = out@.skip(pushed.len() as int);
            assert(out@.take(pushed.len() as int) == pushed);
            assert(pushed == mid.push(ev));
            assert(out@.skip(start.len() as int) =~= ea + seq![ev] + eb) by {
                assert forall|i: int| 0 <= i < out@.len() - start.len() implies out@.skip(start.len() as int)[i]
                    == (ea + seq![ev] + eb)[i] by {
                    if i < ea.len() {
                        assert(out@[start.len() + i] == out@.take(pushed.len() as int)[start.len() + i]);
                    } else if i == ea.len() {
                        assert(out@[start.len() + i] == out@.take(pushed.len() as int)[start.len() + i]);
                    } else {
                        assert(out@[start.len() + i] == eb[i - ea.len() - 1]);
                    }
                }
            }
            assert(entry_of_v1(ev.1, nv, dv));
            assert(entry_wf(ev.1));
            let fs = fa + seq![(kv, nv, dv)] + fb;
            let es = ea + seq![ev] + eb;
            assert forall|i: int| 0 <= i < es.len() implies (#[trigger] es[i]).0@ == fs[i].0 && entry_of_v1(
                es[i].1,
                fs[i].1,
                fs[i].2,
            ) && entry_wf(es[i].1) by {
                if i < ea.len() {
                    assert(es[i] == ea[i]);
                    assert(fs[i] == fa[i]);
                } else if i == ea.len() {
                } else {
                    assert(es[i] == eb[i - ea.len() - 1]);
                    assert(fs[i] == fb[i - ea.len() - 1]);
                }
            }
            assert(out@.take(start.len() as int) =~= start) by {
                assert forall|i: int| 0 <= i < start.len() implies out@[i] == start[i] by {
                    assert(out@[i] == out@.take(pushed.len() as int)[i]);
                    assert(pushed[i] == mid[i]);
                    assert(mid[i] == mid.take(start.len() as int)[i]);
                }
            }
        }
        k += 1;
    }
    assert(orig.take(k as int) =~= orig);
}

/// Build the graph of a lockfileVersion 1 lockfile with top-level `name` and
/// `version` and the nested `dependencies` tree `deps`: the root depends on
/// each top-level package at its version (`*` when absent), and every package
/// of the tree becomes a node at its path key.
pub fn graph_from_v1(name: Option<String>, version: Option<String>, deps: Vec<(String, V1Dep)>) -> (r: DependencyGraph)
    requires
        v1_wf(deps@),
    ensures
        r.lockfile_kind == LockfileKind::NpmPackageLock,
        r.lockfile_version == 1,
        r.root@ == Seq::<char>::empty(),
        r.wf(),
        r.nodes.spec_get(Seq::<char>::empty()) matches Some(n) && v1_root_node(n, name, version, deps@),
        forall|k: Seq<char>|
            #![trigger r.nodes.spec_get(k)]
            k.len() > 0 ==> {
                let fs = v1_flat("node_modules"@, deps@);
                let i = v1_last(fs, k);
                if i < 0 {
                    r.nodes.spec_get(k).is_none()
                } else {
                    r.nodes.spec_get(k) matches Some(n) && v1_node(n, k, fs[i].1, fs[i].2)
                }
            },
        edges_sorted(edge_views(r.edges@)),
        edge_views(r.edges@).to_set() == all_edges(node_list(r.nodes), r.nodes).to_set(),
{
    let ghost dv = deps@;
    let mut root_deps: TextMap<String> = TextMap::new();
    let mut i: usize = 0;
    while i < deps.len()
        invariant
            i <= dv.len(),
            dv == deps@,
            root_deps.wf(),
            forall|q: Seq<char>| #[trigger] root_deps.spec_get(q) == v1_root_dep(dv.take(i as int), q),
        decreases dv.len() - i,
    {
        let range = match &deps[i].1.version {
            Some(v) => own(v.as_str()),
            None => own("*"),
        };
        proof {
            reveal_strlit("*");
        }
        let ghost before = root_deps;
        root_deps.insert(own(deps[i].0.as_str()), range);
        proof {
            let t = dv.take(i + 1);
            assert(t.drop_last() =~= dv.take(i as int));
            assert(t.last() == dv[i as int]);
        }
        i += 1;
    }
    assert(dv.take(dv.len() as int) =~= dv);
    let root = PackageNode {
        key: PackageKey::root(),
        name,
        version,
        source: PackageSource::Workspace,
        integrity: None,
        dependencies: root_deps,
        dev_dependencies: TextMap::new(),
        optional_dependencies: TextMap::new(),
        peer_dependencies: TextMap::new(),
        peer_dependencies_meta: TextMap::new(),
        has_install_script: false,
        optional: false,
        dev: false,
        peer: false,
        cpu: Vec::new(),
        os: Vec::new(),
        bundled_dependencies: Vec::new(),
        is_workspace: true,
        is_link: false,
        likely_native: false,
        bin: TextMap::new(),
    };
    let ghost rn = root;
    let mut nodes: TextMap<PackageNode> = TextMap::new();
    nodes.insert(String::new(), root);
    let ghost with_root = nodes;
    let mut flat: Vec<(String, PackagesEntry)> = Vec::new();
    let ghost empty_flat = flat@;
    flatten_v1(&mut flat, "node_modules", deps);
    let ghost fe = flat@;
    let ghost fs = v1_flat("node_modules"@, dv);
    proof {
        reveal_strlit("node_modules");
        reveal_strlit("node_modules/");
        reveal_strlit("");
        assert(fe.skip(0) =~= fe);
        assert(flat_rel(fe, fs));
        assert forall|i: int| 0 <= i < fe.len() implies entry_wf(#[trigger] fe[i].1) by {}
        lemma_v1_keys("node_modules"@, dv);
    }
    insert_entries(&mut nodes, flat);
    proof {
        assert forall|k: Seq<char>| #![trigger nodes.spec_get(k)] nodes.spec_get(k) matches Some(n) ==> node_wf(n) by {
            crate::lockfile::lemma_last_with_key(fe, k);
        }
        lemma_flat_last(fe, fs, Seq::<char>::empty());
        lemma_v1_last(fs, Seq::<char>::empty());
        if v1_last(fs, Seq::<char>::empty()) >= 0 {
            let j = v1_last(fs, Seq::<char>::empty());
            assert(starts_with(fs[j].0, nm()));
        }
        assert(nodes.spec_get(Seq::<char>::empty()) == with_root.spec_get(Seq::<char>::empty()));
        assert(""@ =~= Seq::<char>::empty());
        assert(rn.bundled_dependencies@.len() == 0);
        assert forall|k: Seq<char>| #![trigger nodes.spec_get(k)] k.len() > 0 implies {
            let i = v1_last(fs, k);
            if i < 0 {
                nodes.spec_get(k).is_none()
            } else {
                nodes.spec_get(k) matches Some(n) && v1_node(n, k, fs[i].1, fs[i].2)
            }
        } by {
            lemma_flat_last(fe, fs, k);
            lemma_v1_last(fs, k);
            let i = v1_last(fs, k);
            if i >= 0 {
                let n = nodes.spec_get(k)->0;
                let e = fe[i].1;
                assert(node_of_entry(n, k, e));
                assert(entry_of_v1(e, fs[i].1, fs[i].2));
                assert(starts_with(k, nm()));
                assert(occurs_at(k, nm(), 0));
                assert(has_sub(k, nm()));
                crate::textmap::lemma_is_sorted_set(Seq::empty(), Seq::empty());
                assert(e.bundled_dependencies.deep_view() + e.bundle_dependencies_alias.deep_view() =~= Seq::<Seq<char>>::empty());
            } else {
                assert(nodes.spec_get(k) == with_root.spec_get(k));
            }
        }
    }
    let edges = build_edges_from_nodes(&nodes);
    DependencyGraph { lockfile_kind: LockfileKind::NpmPackageLock, lockfile_version: 1, root: PackageKey::root(), nodes, edges }
}

} // verus!
