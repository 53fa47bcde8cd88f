//! Reading a parsed `package-lock.json` document: its version, the typed
//! entries of its `packages` map, and the nested `dependencies` tree of the
//! first lockfile format.
use vstd::prelude::*;
use crate::error::Error;
use crate::json::{
    all_text_items, all_text_members, dec_flag, dec_list_ok, dec_map_ok, dec_text, json_flag, json_get,
    json_text, json_text_list, json_text_map, text_items, text_member, JsonValue,
};
use crate::lockfile::{
    all_edges, edge_views, edges_sorted, graph_from_packages, last_with_key, lockfile_format, node_list,
    nodes_of_entries, BinField, DependencyGraph, LockfileFormat, LockfileKind, PackagesEntry, StringOrVec,
};
use crate::lockfile_v1::{dep_wf, graph_from_v1, v1_flat, v1_last, v1_node, v1_root_node, v1_wf, V1Dep};
use crate::text::{chars_of, debug_quoted, debug_str, extend_str, opt_view, own, string_of};
use crate::textmap::TextMap;

verus! {

/// `cpu` / `os`: absent or `null`, a string, or an array of strings.
pub open spec fn dec_string_or_vec_ok(o: Option<JsonValue>) -> bool {
    match o {
        None => true,
        Some(JsonValue::Null) => true,
        Some(JsonValue::Str(_)) => true,
        Some(JsonValue::Array(a)) => all_text_items(a@),
        _ => false,
    }
}

/// `x` is what the field `o` decodes to.
pub open spec fn string_or_vec_from(x: StringOrVec, o: Option<JsonValue>) -> bool {
    match o {
        Some(JsonValue::Str(s)) => x matches StringOrVec::One(t) && t@ == s@,
        Some(JsonValue::Array(a)) => x matches StringOrVec::Many(l) && l.deep_view() == text_items(a@),
        _ => x is Absent,
    }
}

/// `bin`: absent or `null`, a path, or an object of paths.
pub open spec fn dec_bin_ok(o: Option<JsonValue>) -> bool {
    match o {
        None => true,
        Some(JsonValue::Null) => true,
        Some(JsonValue::Str(_)) => true,
        Some(JsonValue::Object(es)) => all_text_members(es@),
        _ => false,
    }
}

/// `b` is what the `bin` field `o` decodes to.
pub open spec fn bin_from(b: BinField, o: Option<JsonValue>) -> bool {
    match o {
        Some(JsonValue::Str(p)) => b matches BinField::Path(t) && t@ == p@,
        Some(JsonValue::Object(es)) => b matches BinField::Table(m) && m.wf() && forall|q: Seq<char>|
            #[trigger] m.spec_get(q) == text_member(es@, q),
        _ => b is Absent,
    }
}

/// One `peerDependenciesMeta` value: an object whose `optional` is absent or a boolean.
pub open spec fn peer_meta_value_ok(v: JsonValue) -> bool {
    v is Object && dec_flag(json_get(v, "optional"@)).is_some()
}

/// `peerDependenciesMeta`: absent, or an object of such values.
pub open spec fn dec_peer_meta_ok(o: Option<JsonValue>) -> bool {
    match o {
        None => true,
        Some(JsonValue::Object(es)) => forall|i: int| 0 <= i < es@.len() ==> peer_meta_value_ok(#[trigger] es@[i].1),
        _ => false,
    }
}

/// The `optional` flag of the last member named `k`.
pub open spec fn peer_flag_member(es: Seq<(String, JsonValue)>, k: Seq<char>) -> Option<bool>
    decreases es.len(),
{
    if es.len() == 0 {
        None
    } else if es.last().0@ == k {
        Some(json_flag(json_get(es.last().1, "optional"@)))
    } else {
        peer_flag_member(es.drop_last(), k)
    }
}

/// The `optional` flag under `k` of a `peerDependenciesMeta` field.
pub open spec fn peer_flag(o: Option<JsonValue>, k: Seq<char>) -> Option<bool> {
    match o {
        Some(JsonValue::Object(es)) => peer_flag_member(es@, k),
        _ => None,
    }
}

/// A `packages` entry decodes: an object whose fields have their types.
pub open spec fn entry_ok(v: JsonValue) -> bool {
    &&& v is Object
    &&& dec_text(json_get(v, "name"@)).is_some()
    &&& dec_text(json_get(v, "version"@)).is_some()
    &&& dec_text(json_get(v, "resolved"@)).is_some()
    &&& dec_text(json_get(v, "integrity"@)).is_some()
    &&& dec_map_ok(json_get(v, "dependencies"@))
    &&& dec_map_ok(json_get(v, "devDependencies"@))
    &&& dec_map_ok(json_get(v, "optionalDependencies"@))
    &&& dec_map_ok(json_get(v, "peerDependencies"@))
    &&& dec_peer_meta_ok(json_get(v, "peerDependenciesMeta"@))
    &&& dec_flag(json_get(v, "hasInstallScript"@)).is_some()
    &&& dec_flag(json_get(v, "optional"@)).is_some()
    &&& dec_flag(json_get(v, "dev"@)).is_some()
    &&& dec_flag(json_get(v, "peer"@)).is_some()
    &&& dec_flag(json_get(v, "link"@)).is_some()
    &&& dec_string_or_vec_ok(json_get(v, "cpu"@))
    &&& dec_string_or_vec_ok(json_get(v, "os"@))
    &&& dec_list_ok(json_get(v, "bundledDependencies"@))
    &&& dec_list_ok(json_get(v, "bundleDependencies"@))
    &&& dec_bin_ok(json_get(v, "bin"@))
}

/// A string map field decoded into `m`.
pub open spec fn map_from(m: TextMap<String>, v: JsonValue, k: Seq<char>) -> bool {
    m.wf() && forall|q: Seq<char>| #[trigger] m.spec_get(q) == json_text_map(json_get(v, k), q)
}

/// `e` is the entry that `v` decodes to.
pub open spec fn entry_from(e: PackagesEntry, v: JsonValue) -> bool {
    &&& dec_text(json_get(v, "name"@)) == Some(opt_view(e.name))
    &&& dec_text(json_get(v, "version"@)) == Some(opt_view(e.version))
    &&& dec_text(json_get(v, "resolved"@)) == Some(opt_view(e.resolved))
    &&& dec_text(json_get(v, "integrity"@)) == Some(opt_view(e.integrity))
    &&& map_from(e.dependencies, v, "dependencies"@)
    &&& map_from(e.dev_dependencies, v, "devDependencies"@)
    &&& map_from(e.optional_dependencies, v, "optionalDependencies"@)
    &&& map_from(e.peer_dependencies, v, "peerDependencies"@)
    &&& e.peer_dependencies_meta.wf()
    &&& forall|q: Seq<char>|
        #[trigger] e.peer_dependencies_meta.spec_get(q) == peer_flag(json_get(v, "peerDependenciesMeta"@), q)
    &&& dec_flag(json_get(v, "hasInstallScript"@)) == Some(e.has_install_script)
    &&& dec_flag(json_get(v, "optional"@)) == Some(e.optional)
    &&& dec_flag(json_get(v, "dev"@)) == Some(e.dev)
    &&& dec_flag(json_get(v, "peer"@)) == Some(e.peer)
    &&& dec_flag(json_get(v, "link"@)) == Some(e.link)
    &&& string_or_vec_from(e.cpu, json_get(v, "cpu"@))
    &&& string_or_vec_from(e.os, json_get(v, "os"@))
    &&& e.bundled_dependencies.deep_view() == json_text_list(json_get(v, "bundledDependencies"@))
    &&& e.bundle_dependencies_alias.deep_view() == json_text_list(json_get(v, "bundleDependencies"@))
    &&& bin_from(e.bin, json_get(v, "bin"@))
}

fn string_or_vec_of(v: &JsonValue, key: &str) -> (r: Option<StringOrVec>)
    ensures
        r.is_some() == dec_string_or_vec_ok(json_get(*v, key@)),
        r matches Some(x) ==> string_or_vec_from(x, json_get(*v, key@)),
{
    match v.get(key) {
        None => Some(StringOrVec::Absent),
        Some(JsonValue::Null) => Some(StringOrVec::Absent),
        Some(JsonValue::Str(s)) => Some(StringOrVec::One(own(s.as_str()))),
        Some(a) => match v.dec_list_at(key) {
            Some(l) => {
                assert(a is Array);
                Some(StringOrVec::Many(l))
            },
            None => None,
        },
    }
}

fn bin_of(v: &JsonValue) -> (r: Option<BinField>)
    ensures
        r.is_some() == dec_bin_ok(json_get(*v, "bin"@)),
        r matches Some(b) ==> bin_from(b, json_get(*v, "bin"@)),
{
    match v.get("bin") {
        None => Some(BinField::Absent),
        Some(JsonValue::Null) => Some(BinField::Absent),
        Some(JsonValue::Str(p)) => Some(BinField::Path(own(p.as_str()))),
        Some(o) => match v.dec_map_at("bin") {
            Some(m) => {
                assert(o is Object);
                Some(BinField::Table(m))
            },
            None => None,
        },
    }
}

fn peer_meta_of(v: &JsonValue) -> (r: Option<TextMap<bool>>)
    ensures
        r.is_some() == dec_peer_meta_ok(json_get(*v, "peerDependenciesMeta"@)),
        r matches Some(m) ==> m.wf() && forall|q: Seq<char>|
            #[trigger] m.spec_get(q) == peer_flag(json_get(*v, "peerDependenciesMeta"@), q),
{
    let mut m: TextMap<bool> = TextMap::new();
    let ghost m0 = m;
    match v.get("peerDependenciesMeta") {
        None => {
            assert forall|q: Seq<char>| #[trigger] m.spec_get(q) == peer_flag(json_get(*v, "peerDependenciesMeta"@), q) by {
                assert(m.spec_get(q) == m0.spec_get(q));
            }
            Some(m)
        },
        Some(JsonValue::Object(es)) => {
            let mut i: usize = 0;
            assert forall|q: Seq<char>| #[trigger] m.spec_get(q) == peer_flag_member(es@.take(0), q) by {
                assert(m.spec_get(q) == m0.spec_get(q));
            }
            while i < es.len()
                invariant
                    i <= es@.len(),
                    m.wf(),
                    json_get(*v, "peerDependenciesMeta"@) == Some(JsonValue::Object(*es)),
                    forall|j: int| 0 <= j < i ==> peer_meta_value_ok(#[trigger] es@[j].1),
                    forall|q: Seq<char>| #[trigger] m.spec_get(q) == peer_flag_member(es@.take(i as int), q),
                decreases es@.len() - i,
            {
                assert(es@.take(i + 1).drop_last() =~= es@.take(i as int));
                let item = &es[i].1;
                let flag = match item {
                    JsonValue::Object(_) => match item.dec_flag_at("optional") {
                        Some(b) => b,
                        None => {
                            assert(!peer_meta_value_ok(es@[i as int].1));
                            return None;
                        },
                    },
                    _ => {
                        assert(!peer_meta_value_ok(es@[i as int].1));
                        return None;
                    },
                };
                m.insert(own(es[i].0.as_str()), flag);
                i += 1;
            }
            assert(es@.take(es@.len() as int) =~= es@);
            Some(m)
        },
        Some(_) => None,
    }
}

/// The error for a `packages` entry that does not decode.
pub open spec fn entry_error(path: Seq<char>, key: Seq<char>, e: Error) -> bool {
    e matches Error::InvalidLockfile { path: p, reason } && p@ == path && reason@ == "invalid packages["@
        + debug_quoted(key) + "] entry: not an object with fields of the expected types"@
}

/// Decode the `packages` entry `key` of the lockfile at `path`.
pub fn packages_entry_of(path: &str, key: &str, v: &JsonValue) -> (r: Result<PackagesEntry, Error>)
    ensures
        r is Ok <==> entry_ok(*v),
        r matches Ok(e) ==> entry_from(e, *v) && crate::lockfile::entry_wf(e),
        r matches Err(e) ==> entry_error(path@, key@, e),
{
    let fail = || -> (e: Error)
        ensures
            entry_error(path@, key@, e),
    {
        let mut m = chars_of("invalid packages[");
        extend_str(&mut m, debug_str(key).as_str());
        extend_str(&mut m, "] entry: not an object with fields of the expected types");
        Error::InvalidLockfile { path: own(path), reason: string_of(&m) }
    };
    match v {
        JsonValue::Object(_) => {},
        _ => {
            return Err(fail());
        },
    }
    let name = match v.dec_text_at("name") { Some(x) => x, None => { return Err(fail()); } };
    let version = match v.dec_text_at("version") { Some(x) => x, None => { return Err(fail()); } };
    let resolved = match v.dec_text_at("resolved") { Some(x) => x, None => { return Err(fail()); } };
    let integrity = match v.dec_text_at("integrity") { Some(x) => x, None => { return Err(fail()); } };
    let dependencies = match v.dec_map_at("dependencies") { Some(x) => x, None => { return Err(fail()); } };
    let dev_dependencies = match v.dec_map_at("devDependencies") { Some(x) => x, None => { return Err(fail()); } };
    let optional_dependencies = match v.dec_map_at("optionalDependencies") { Some(x) => x, None => { return Err(fail()); } };
    let peer_dependencies = match v.dec_map_at("peerDependencies") { Some(x) => x, None => { return Err(fail()); } };
    let peer_dependencies_meta = match peer_meta_of(v) { Some(x) => x, None => { return Err(fail()); } };
    let has_install_script = match v.dec_flag_at("hasInstallScript") { Some(x) => x, None => { return Err(fail()); } };
    let optional = match v.dec_flag_at("optional") { Some(x) => x, None => { return Err(fail()); } };
    let dev = match v.dec_flag_at("dev") { Some(x) => x, None => { return Err(fail()); } };
    let peer = match v.dec_flag_at("peer") { Some(x) => x, None => { return Err(fail()); } };
    let link = match v.dec_flag_at("link") { Some(x) => x, None => { return Err(fail()); } };
    let cpu = match string_or_vec_of(v, "cpu") { Some(x) => x, None => { return Err(fail()); } };
    let os = match string_or_vec_of(v, "os") { Some(x) => x, None => { return Err(fail()); } };
    let bundled = match v.dec_list_at("bundledDependencies") { Some(x) => x, None => { return Err(fail()); } };
    let bundle_alias = match v.dec_list_at("bundleDependencies") { Some(x) => x, None => { return Err(fail()); } };
    let bin = match bin_of(v) { Some(x) => x, None => { return Err(fail()); } };
    Ok(
        PackagesEntry {
            name,
            version,
            resolved,
            integrity,
            dependencies,
            dev_dependencies,
            optional_dependencies,
            peer_dependencies,
            peer_dependencies_meta,
            has_install_script,
            optional,
            dev,
            peer,
            link,
            cpu,
            os,
            bundled_dependencies: bundled,
            bundle_dependencies_alias: bundle_alias,
            bin,
        },
    )
}

/// The members of the `dependencies` object of `v` (none when it has none).
pub open spec fn child_members(v: JsonValue) -> Seq<(String, JsonValue)> {
    match json_get(v, "dependencies"@) {
        Some(JsonValue::Object(es)) => es@,
        _ => Seq::empty(),
    }
}

/// `d` holds the fields of the lockfileVersion 1 package `v` (strings and
/// flags of other types are ignored, as are non-string `requires` values).
pub open spec fn v1_dep_fields(d: V1Dep, v: JsonValue) -> bool {
    &&& opt_view(d.version) == json_text(json_get(v, "version"@))
    &&& opt_view(d.resolved) == json_text(json_get(v, "resolved"@))
    &&& opt_view(d.integrity) == json_text(json_get(v, "integrity"@))
    &&& d.optional == json_flag(json_get(v, "optional"@))
    &&& d.dev == json_flag(json_get(v, "dev"@))
    &&& d.required.wf()
    &&& forall|q: Seq<char>| #[trigger] d.required.spec_get(q) == json_text_map(json_get(v, "requires"@), q)
    &&& bin_from(d.bin, json_get(v, "bin"@))
}

/// `ds` is the tree the members `es` describe, member by member and level by level.
pub open spec fn v1_tree_from(ds: Seq<(String, V1Dep)>, es: Seq<(String, JsonValue)>) -> bool
    decreases ds,
{
    if ds.len() == 0 {
        es.len() == 0
    } else {
        &&& es.len() == ds.len()
        &&& v1_tree_from(ds.drop_last(), es.drop_last())
        &&& ds.last().0@ == es.last().0@
        &&& v1_dep_fields(ds.last().1, es.last().1)
        &&& v1_tree_from(ds.last().1.dependencies@, child_members(es.last().1))
    }
}

/// Index of the last member named `key`.
fn member_index(es: &Vec<(String, JsonValue)>, key: &str) -> (r: Option<usize>)
    ensures
        match r {
            Some(j) => j < es@.len() && crate::json::member(es@, key@) == Some(es@[j as int].1),
            None => crate::json::member(es@, key@).is_none(),
        },
{
    let mut found: Option<usize> = None;
    let mut i: usize = 0;
    while i < es.len()
        invariant
            i <= es@.len(),
            match found {
                Some(j) => j < i && crate::json::member(es@.take(i as int), key@) == Some(es@[j as int].1),
                None => crate::json::member(es@.take(i as int), key@).is_none(),
            },
        decreases es@.len() - i,
    {
        assert(es@.take(i + 1).drop_last() =~= es@.take(i as int));
        if crate::text::str_eq(es[i].0.as_str(), key) {
            found = Some(i);
        }
        i += 1;
    }
    assert(es@.take(es@.len() as int) =~= es@);
    found
}

fn v1_bin_of(v: &JsonValue) -> (r: BinField)
    ensures
        bin_from(r, json_get(*v, "bin"@)),
        r matches BinField::Table(m) ==> m.wf(),
{
    match v.get("bin") {
        Some(JsonValue::Str(p)) => BinField::Path(own(p.as_str())),
        Some(JsonValue::Object(_)) => BinField::Table(v.text_map_at("bin")),
        _ => BinField::Absent,
    }
}

/// Decode one package of a lockfileVersion 1 tree, with its nested packages.
pub fn v1_dep_of(v: &JsonValue) -> (r: V1Dep)
    ensures
        v1_dep_fields(r, *v),
        v1_tree_from(r.dependencies@, child_members(*v)),
        dep_wf(r),
        v1_wf(r.dependencies@),
    decreases *v,
{
    let mut dependencies: Vec<(String, V1Dep)> = Vec::new();
    proof {
        assert(v1_tree_from(dependencies@, Seq::empty()));
    }
    match v {
        JsonValue::Object(members) => {
            match member_index(members, "dependencies") {
                Some(j) => {
                    match &members[j].1 {
                        JsonValue::Object(es) => {
                            proof {
                                assert(decreases_to!(*v => *members));
                                vstd::std_specs::vec::axiom_vec_index_decreases(*members, j as int);
                                assert(decreases_to!(*members => members@[j as int]));
                                assert(decreases_to!(members@[j as int] => members@[j as int].1));
                                assert(decreases_to!(members@[j as int].1 => *es));
                                assert(decreases_to!(*v => *es));
                            }
                            dependencies = v1_deps_in(es);
                        },
                        _ => {},
                    }
                },
                None => {},
            }
        },
        _ => {},
    }
    V1Dep {
        version: v.text_at("version"),
        resolved: v.text_at("resolved"),
        integrity: v.text_at("integrity"),
        optional: v.flag_at("optional"),
        dev: v.flag_at("dev"),
        required: v.text_map_at("requires"),
        bin: v1_bin_of(v),
        dependencies,
    }
}

/// Decode the members `es` of a `dependencies` object, in order.
pub fn v1_deps_in(es: &Vec<(String, JsonValue)>) -> (r: Vec<(String, V1Dep)>)
    ensures
        v1_tree_from(r@, es@),
        v1_wf(r@),
    decreases *es,
{
    let mut out: Vec<(String, V1Dep)> = Vec::new();
    let mut i: usize = 0;
    assert(es@.take(0) =~= Seq::<(String, JsonValue)>::empty());
    while i < es.len()
        invariant
            i <= es@.len(),
            v1_tree_from(out@, es@.take(i as int)),
            v1_wf(out@),
        decreases es@.len() - i,
    {
        proof {
            vstd::std_specs::vec::axiom_vec_index_decreases(*es, i as int);
            assert(decreases_to!(*es => es@[i as int]));
            assert(decreases_to!(es@[i as int] => es@[i as int].1));
            assert(decreases_to!(*es => es@[i as int].1));
        }
        let d = v1_dep_of(&es[i].1);
        let ghost before = out@;
        out.push((own(es[i].0.as_str()), d));
        proof {
            assert(out@.drop_last() =~= before);
            assert(es@.take(i + 1).drop_last() =~= es@.take(i as int));
            assert(es@.take(i + 1).last() == es@[i as int]);
        }
        i += 1;
    }
    assert(es@.take(es@.len() as int) =~= es@);
    out
}

/// What building the graph of the entries `es` gives: the graph, when the
/// root entry `""` is among them.
pub open spec fn packages_result(path: Seq<char>, version: u32, es: Seq<(String, PackagesEntry)>, r: Result<DependencyGraph, Error>) -> bool {
    if last_with_key(es, Seq::empty()) < 0 {
        r matches Err(Error::InvalidLockfile { path: p, reason }) && p@ == path
            && reason@ == "packages map is missing the root entry \"\""@
    } else {
        r matches Ok(g) && g.lockfile_kind == LockfileKind::NpmPackageLock && g.lockfile_version == version
            && g.root@ == Seq::<char>::empty() && g.nodes.wf() && g.wf() && nodes_of_entries(g.nodes, es)
            && edges_sorted(edge_views(g.edges@)) && edge_views(g.edges@).to_set() == all_edges(
            node_list(g.nodes),
            g.nodes,
        ).to_set()
    }
}

/// The graph of a lockfileVersion 1 document `doc` whose tree is `ds`.
pub open spec fn v1_graph(g: DependencyGraph, doc: JsonValue, ds: Seq<(String, V1Dep)>) -> bool {
    &&& g.lockfile_kind == LockfileKind::NpmPackageLock
    &&& g.lockfile_version == 1
    &&& g.root@ == Seq::<char>::empty()
    &&& g.wf()
    &&& g.nodes.spec_get(Seq::<char>::empty()) matches Some(n) && v1_root_node(n, n.name, n.version, ds)
        && opt_view(n.name) == json_text(json_get(doc, "name"@)) && opt_view(n.version) == json_text(
        json_get(doc, "version"@),
    )
    &&& forall|k: Seq<char>|
        #![trigger g.nodes.spec_get(k)]
        k.len() > 0 ==> {
            let fs = v1_flat("node_modules"@, ds);
            let i = v1_last(fs, k);
            if i < 0 {
                g.nodes.spec_get(k).is_none()
            } else {
                g.nodes.spec_get(k) matches Some(n) && v1_node(n, k, fs[i].1, fs[i].2)
            }
        }
    &&& edges_sorted(edge_views(g.edges@))
    &&& edge_views(g.edges@).to_set() == all_edges(node_list(g.nodes), g.nodes).to_set()
}

/// `lockfileVersion` as a 32-bit number (cut to 32 bits), 1 when absent or
/// not an unsigned integer.
pub open spec fn lockfile_version_of(v: JsonValue) -> u32 {
    match json_get(v, "lockfileVersion"@) {
        Some(JsonValue::Number(Some(n))) => (n % 0x1_0000_0000) as u32,
        _ => 1,
    }
}

/// The members of the `packages` object, if there is one.
pub open spec fn packages_members(v: JsonValue) -> Option<Seq<(String, JsonValue)>> {
    match json_get(v, "packages"@) {
        Some(JsonValue::Object(es)) => Some(es@),
        _ => None,
    }
}

/// `ds` are the entries that the members `es` decode to, in order.
pub open spec fn entries_from(ds: Seq<(String, PackagesEntry)>, es: Seq<(String, JsonValue)>) -> bool {
    &&& ds.len() == es.len()
    &&& forall|i: int| 0 <= i < ds.len() ==> (#[trigger] ds[i]).0@ == es[i].0@ && entry_from(ds[i].1, es[i].1)
}

/// The dependency graph of the parsed lockfile `v` read from `path`:
/// version 1 from its nested tree, versions 2 and 3 from the typed entries
/// of its `packages` map; other versions are refused.
pub fn lockfile_graph(path: &str, v: &JsonValue) -> (r: Result<DependencyGraph, Error>)
    ensures
        ({
            let version = lockfile_version_of(*v);
            if version == 1 {
                r matches Ok(g) && exists|ds: Seq<(String, V1Dep)>|
                    v1_tree_from(ds, child_members(*v)) && v1_wf(ds) && #[trigger] v1_graph(g, *v, ds)
            } else if version == 2 || version == 3 {
                match packages_members(*v) {
                    None => r matches Err(Error::InvalidLockfile { path: p, reason }) && p@ == path@
                        && reason@ == "missing packages object"@,
                    Some(es) => if exists|i: int| 0 <= i < es.len() && !entry_ok(#[trigger] es[i].1) {
                        r matches Err(e) && exists|i: int|
                            0 <= i < es.len() && !entry_ok(#[trigger] es[i].1) && (forall|j: int|
                                0 <= j < i ==> entry_ok(#[trigger] es[j].1)) && entry_error(path@, es[i].0@, e)
                    } else {
                        exists|ds: Seq<(String, PackagesEntry)>|
                            entries_from(ds, es) && #[trigger] packages_result(path@, version, ds, r)
                    },
                }
            } else {
                r matches Err(Error::UnsupportedLockfile { path: p, reason }) && p@ == path@ && reason@
                    == "lockfileVersion "@ + crate::text::decimal(version as nat) + " is not supported yet"@
            }
        }),
{
    let version: u32 = match v.get("lockfileVersion") {
        Some(JsonValue::Number(Some(n))) => (*n % 0x1_0000_0000) as u32,
        _ => 1,
    };
    match lockfile_format(path, version) {
        Err(e) => Err(e),
        Ok(LockfileFormat::Nested) => {
            let deps = match v.get("dependencies") {
                Some(JsonValue::Object(es)) => v1_deps_in(es),
                _ => {
                    let e: Vec<(String, V1Dep)> = Vec::new();
                    assert(v1_tree_from(e@, Seq::empty()));
                    e
                },
            };
            let g = graph_from_v1(v.text_at("name"), v.text_at("version"), deps);
            assert(v1_graph(g, *v, deps@));
            Ok(g)
        },
        Ok(LockfileFormat::Packages) => {
            match v.get("packages") {
                Some(JsonValue::Object(es)) => {
                    let mut entries: Vec<(String, PackagesEntry)> = Vec::new();
                    let mut i: usize = 0;
                    while i < es.len()
                        invariant
                            i <= es@.len(),
                            entries@.len() == i,
                            packages_members(*v) == Some(es@),
                            version == lockfile_version_of(*v),
                            version == 2 || version == 3,
                            forall|j: int| 0 <= j < i ==> entry_ok(#[trigger] es@[j].1),
                            forall|j: int|
                                0 <= j < i ==> (#[trigger] entries@[j]).0@ == es@[j].0@ && entry_from(
                                    entries@[j].1,
                                    es@[j].1,
                                ) && crate::lockfile::entry_wf(entries@[j].1),
                        decreases es@.len() - i,
                    {
                        match packages_entry_of(path, es[i].0.as_str(), &es[i].1) {
                            Ok(e) => {
                                entries.push((own(es[i].0.as_str()), e));
                            },
                            Err(e) => {
                                assert(!entry_ok(es@[i as int].1));
                                assert(entry_error(path@, es@[i as int].0@, e));
                                let ghost k = i as int;
                                assert(0 <= k < es@.len() && !entry_ok(es@[k].1) && (forall|j: int|
                                    0 <= j < k ==> entry_ok(#[trigger] es@[j].1)) && entry_error(path@, es@[k].0@, e));
                                let ghost pes = packages_members(*v)->Some_0;
                                assert(pes == es@);
                                assert(exists|q: int| 0 <= q < pes.len() && !entry_ok(#[trigger] pes[q].1));
                                assert(exists|q: int|
                                    0 <= q < pes.len() && !entry_ok(#[trigger] pes[q].1) && (forall|j: int|
                                        0 <= j < q ==> entry_ok(#[trigger] pes[j].1)) && entry_error(path@, pes[q].0@, e));
                                return Err(e);
                            },
                        }
                        i += 1;
                    }
                    let ghost ds = entries@;
                    assert(entries_from(ds, es@));
                    let r = graph_from_packages(path, version, Some(entries));
                    assert(packages_result(path@, version, ds, r));
                    r
                },
                _ => graph_from_packages(path, version, None),
            }
        },
    }
}

/// The `lockfileVersion` a lockfile header declares: absent or `null` give
/// `None`; anything but an unsigned 32-bit integer is refused.
pub fn lockfile_header_version(path: &str, v: &JsonValue) -> (r: Result<Option<u32>, Error>)
    ensures
        match json_get(*v, "lockfileVersion"@) {
            None => r == Ok::<Option<u32>, Error>(None),
            Some(JsonValue::Null) => r == Ok::<Option<u32>, Error>(None),
            Some(JsonValue::Number(Some(n))) => if n <= u32::MAX {
                r == Ok::<Option<u32>, Error>(Some(n as u32))
            } else {
                r matches Err(Error::UnsupportedLockfile { path: p, reason }) && p@ == path@ && reason@
                    == "invalid JSON: lockfileVersion is not a 32-bit unsigned integer"@
            },
            _ => r matches Err(Error::UnsupportedLockfile { path: p, reason }) && p@ == path@ && reason@
                == "invalid JSON: lockfileVersion is not a 32-bit unsigned integer"@,
        },
{
    match v.get("lockfileVersion") {
        None => Ok(None),
        Some(JsonValue::Null) => Ok(None),
        Some(JsonValue::Number(Some(n))) => {
            if *n <= 0xffff_ffff {
                Ok(Some(*n as u32))
            } else {
                Err(
                    Error::UnsupportedLockfile {
                        path: own(path),
                        reason: own("invalid JSON: lockfileVersion is not a 32-bit unsigned integer"),
                    },
                )
            }
        },
        _ => Err(
            Error::UnsupportedLockfile {
                path: own(path),
                reason: own("invalid JSON: lockfileVersion is not a 32-bit unsigned integer"),
            },
        ),
    }
}

} // verus!
