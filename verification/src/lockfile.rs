//! The npm lockfile model: package keys, nodes, sources and dependency edges,
//! and the interpretation of `package-lock.json` entries.
use vstd::prelude::*;
use crate::error::Error;
use crate::layout::{infer_name_from_key, infer_name_from_key_spec, is_workspace_path, is_workspace_path_spec, last_name_part};
use crate::text::{chars_of, ends_with, extend_str, has_sub, list_has, opt_view, own, starts_with, str_eq, string_of, trim_start_matches};
use crate::textmap::{lex_lt, TextMap};

verus! {

/// Path-like key of a package in the lockfile (`""` is the root,
/// `node_modules/a/node_modules/b` a nested install).
#[derive(Debug, PartialEq, Eq)]
pub struct PackageKey {
    key: String,
}

impl View for PackageKey {
    type V = Seq<char>;

    open spec fn view(&self) -> Seq<char> {
        self.spec_key()
    }
}

impl PackageKey {
    /// The key text.
    pub closed spec fn spec_key(&self) -> Seq<char> {
        self.key@
    }

    /// A key with this text.
    pub fn new(key: String) -> (r: PackageKey)
        ensures
            r@ == key@,
    {
        PackageKey { key }
    }

    /// The root key `""`.
    pub fn root() -> (r: PackageKey)
        ensures
            r@ == Seq::<char>::empty(),
    {
        let r = PackageKey { key: String::new() };
        proof {
            reveal_strlit("");
        }
        r
    }

    /// The key text.
    pub fn as_str(&self) -> (r: &str)
        ensures
            r@ == self@,
    {
        self.key.as_str()
    }

    /// Whether this is the root key.
    pub fn is_root(&self) -> (r: bool)
        ensures
            r == (self@.len() == 0),
    {
        self.key.as_str().is_empty()
    }

    /// A copy of this key.
    pub fn copy(&self) -> (r: PackageKey)
        ensures
            r@ == self@,
    {
        PackageKey { key: own(self.key.as_str()) }
    }
}

/// Where a package's files come from.
#[derive(Debug, PartialEq, Eq)]
#[allow(inconsistent_fields)]
pub enum PackageSource {
    /// Downloaded tarball.
    Registry { resolved: String },
    /// Symlink to another location (`link:`).
    Link { target: String },
    /// Local directory (`file:`).
    Path { path: String },
    /// Workspace member or the root.
    Workspace,
    /// Anything else.
    Other { resolved: Option<String> },
}

/// A source as plain values.
pub enum SourceModel {
    Registry(Seq<char>),
    Link(Seq<char>),
    Path(Seq<char>),
    Workspace,
    Other(Option<Seq<char>>),
}

impl View for PackageSource {
    type V = SourceModel;

    open spec fn view(&self) -> SourceModel {
        match self {
            PackageSource::Registry { resolved } => SourceModel::Registry(resolved@),
            PackageSource::Link { target } => SourceModel::Link(target@),
            PackageSource::Path { path } => SourceModel::Path(path@),
            PackageSource::Workspace => SourceModel::Workspace,
            PackageSource::Other { resolved } => SourceModel::Other(opt_view(*resolved)),
        }
    }
}

/// `resolved` points at a link or a local directory.
pub open spec fn link_resolved(resolved: Option<Seq<char>>) -> bool {
    match resolved {
        Some(r) => starts_with(r, "link:"@) || starts_with(r, "file:"@),
        None => false,
    }
}

/// Whether `resolved` points at a link or a local directory.
pub fn is_link_resolved(resolved: Option<&str>) -> (r: bool)
    ensures
        r == link_resolved(match resolved {
            Some(s) => Some(s@),
            None => None,
        }),
{
    match resolved {
        Some(r) => crate::text::str_starts_with(r, "link:") || crate::text::str_starts_with(r, "file:"),
        None => false,
    }
}

/// The source a lockfile entry describes.
pub open spec fn source_of(resolved: Option<Seq<char>>, is_link: bool, is_workspace: bool) -> SourceModel {
    match resolved {
        Some(r) => if starts_with(r, "link:"@) {
            SourceModel::Link(trim_start_matches(r, "link:"@))
        } else if starts_with(r, "file:"@) {
            SourceModel::Path(trim_start_matches(r, "file:"@))
        } else if starts_with(r, "http://"@) || starts_with(r, "https://"@) {
            SourceModel::Registry(r)
        } else if is_link {
            SourceModel::Link(r)
        } else {
            SourceModel::Other(Some(r))
        },
        None => if is_workspace {
            SourceModel::Workspace
        } else {
            SourceModel::Other(None)
        },
    }
}

/// Classify where a package comes from.
pub fn classify_source(resolved: Option<&str>, is_link: bool, is_workspace: bool) -> (r: PackageSource)
    ensures
        r@ == source_of(
            match resolved {
                Some(s) => Some(s@),
                None => None,
            },
            is_link,
            is_workspace,
        ),
{
    match resolved {
        Some(r) => {
            if crate::text::str_starts_with(r, "link:") {
                let t = crate::text::trim_start_matches_chars(&chars_of(r), &chars_of("link:"));
                PackageSource::Link { target: string_of(&t) }
            } else if crate::text::str_starts_with(r, "file:") {
                let t = crate::text::trim_start_matches_chars(&chars_of(r), &chars_of("file:"));
                PackageSource::Path { path: string_of(&t) }
            } else if crate::text::str_starts_with(r, "http://") || crate::text::str_starts_with(r, "https://") {
                PackageSource::Registry { resolved: own(r) }
            } else if is_link {
                PackageSource::Link { target: own(r) }
            } else {
                PackageSource::Other { resolved: Some(own(r)) }
            }
        },
        None => if is_workspace {
            PackageSource::Workspace
        } else {
            PackageSource::Other { resolved: None }
        },
    }
}

/// Dependency names that suggest a native addon.
pub open spec fn native_marker(d: Seq<char>) -> bool {
    has_sub(d, "node-gyp"@) || has_sub(d, "node-addon-api"@) || has_sub(d, "nan"@) || has_sub(
        d,
        "prebuild-install"@,
    ) || has_sub(d, "node-pre-gyp"@) || has_sub(d, "@napi-rs/"@) || has_sub(d, "bindings"@)
}

/// Package names that suggest a native addon.
pub open spec fn native_package_name(n: Seq<char>) -> bool {
    has_sub(n, "node-gyp"@) || ends_with(n, "-native"@) || has_sub(n, "fsevents"@) || has_sub(
        n,
        "sharp"@,
    ) || has_sub(n, "sqlite3"@) || has_sub(n, "bcrypt"@)
}

/// Some key of `m` is a native marker.
pub open spec fn has_marker_key(m: TextMap<String>) -> bool {
    exists|i: int| 0 <= i < m.spec_entries().len() && native_marker(#[trigger] m.spec_entries()[i].0)
}

/// Heuristic: the package likely builds a native addon.
pub open spec fn native_spec(name: Option<Seq<char>>, has_install_script: bool, deps: TextMap<String>, optional_deps: TextMap<String>) -> bool {
    let name_hit = match name {
        Some(n) => native_package_name(n),
        None => false,
    };
    let script_hit = match name {
        Some(n) => has_install_script && has_sub(n, "node"@),
        None => false,
    };
    name_hit || has_marker_key(deps) || has_marker_key(optional_deps) || script_hit
}

fn native_marker_exec(d: &str) -> (r: bool)
    ensures
        r == native_marker(d@),
{
    crate::text::str_contains(d, "node-gyp") || crate::text::str_contains(d, "node-addon-api")
        || crate::text::str_contains(d, "nan") || crate::text::str_contains(d, "prebuild-install")
        || crate::text::str_contains(d, "node-pre-gyp") || crate::text::str_contains(d, "@napi-rs/")
        || crate::text::str_contains(d, "bindings")
}

fn any_marker_key(m: &TextMap<String>) -> (r: bool)
    ensures
        r == has_marker_key(*m),
{
    let mut i: usize = 0;
    while i < m.len()
        invariant
            i <= m.spec_entries().len(),
            forall|j: int| 0 <= j < i ==> !native_marker(#[trigger] m.spec_entries()[j].0),
        decreases m.spec_entries().len() - i,
    {
        if native_marker_exec(m.key_at(i).as_str()) {
            return true;
        }
        i += 1;
    }
    false
}

/// Heuristic: the package likely builds a native addon.
pub fn looks_native(name: Option<&str>, has_install_script: bool, deps: &TextMap<String>, optional_deps: &TextMap<String>) -> (r: bool)
    ensures
        r == native_spec(
            match name {
                Some(s) => Some(s@),
                None => None,
            },
            has_install_script,
            *deps,
            *optional_deps,
        ),
{
    let name_hit = match name {
        Some(n) => crate::text::str_contains(n, "node-gyp") || crate::text::str_ends_with(n, "-native")
            || crate::text::str_contains(n, "fsevents") || crate::text::str_contains(n, "sharp")
            || crate::text::str_contains(n, "sqlite3") || crate::text::str_contains(n, "bcrypt"),
        None => false,
    };
    let script_hit = match name {
        Some(n) => has_install_script && crate::text::str_contains(n, "node"),
        None => false,
    };
    name_hit || any_marker_key(deps) || any_marker_key(optional_deps) || script_hit
}

/// `bin` of a lockfile entry.
#[derive(Debug)]
pub enum BinField {
    /// Absent.
    Absent,
    /// `bin: "./cli.js"` — name inferred from package name.
    Path(String),
    /// `bin: { "name": "path" }`.
    Table(TextMap<String>),
}

impl BinField {
    /// Command name → path: a single path is named after the package (its
    /// last `/` part); without a package name it yields nothing.
    pub fn into_map(self, package_name: Option<&str>) -> (r: TextMap<String>)
        requires
            self matches BinField::Table(m) ==> m.wf(),
        ensures
            r.wf(),
            match self {
                BinField::Absent => r.spec_entries().len() == 0,
                BinField::Path(path) => match package_name {
                    None => r.spec_entries().len() == 0,
                    Some(n) => r.spec_entries() == seq![(last_name_part(n@), path@)],
                },
                BinField::Table(m) => r == m,
            },
    {
        match self {
            BinField::Absent => TextMap::new(),
            BinField::Path(path) => match package_name {
                None => TextMap::new(),
                Some(n) => {
                    let mut m: TextMap<String> = TextMap::new();
                    let ghost pv = path@;
                    m.insert(crate::layout::bin_name_for(n), path);
                    proof {
                        crate::textmap::lemma_single_entry(m, last_name_part(n@), pv);
                    }
                    m
                },
            },
            BinField::Table(m) => m,
        }
    }
}

/// A string or a list of strings (`cpu`, `os`).
#[derive(Debug)]
pub enum StringOrVec {
    /// Absent.
    Absent,
    /// A single string.
    One(String),
    /// A list.
    Many(Vec<String>),
}

impl StringOrVec {
    /// The strings as a list.
    pub fn into_vec(self) -> (r: Vec<String>)
        ensures
            match self {
                StringOrVec::Absent => r@.len() == 0,
                StringOrVec::One(s) => r.deep_view() == seq![s@],
                StringOrVec::Many(v) => r == v,
            },
    {
        match self {
            StringOrVec::Absent => Vec::new(),
            StringOrVec::One(s) => {
                let ghost sv = s@;
                let v = vec![s];
                assert(v.deep_view() =~= seq![sv]);
                v
            },
            StringOrVec::Many(v) => v,
        }
    }
}

// ---------------------------------------------------------------------------
// Nodes
// ---------------------------------------------------------------------------

/// One installed package of the lockfile.
#[derive(Debug)]
pub struct PackageNode {
    /// Lockfile key.
    pub key: PackageKey,
    /// Package name.
    pub name: Option<String>,
    /// Version.
    pub version: Option<String>,
    /// Where the files come from.
    pub source: PackageSource,
    /// SRI of the tarball.
    pub integrity: Option<String>,
    /// `dependencies` (name → range).
    pub dependencies: TextMap<String>,
    /// `devDependencies`.
    pub dev_dependencies: TextMap<String>,
    /// `optionalDependencies`.
    pub optional_dependencies: TextMap<String>,
    /// `peerDependencies`.
    pub peer_dependencies: TextMap<String>,
    /// `peerDependenciesMeta` (name → optional).
    pub peer_dependencies_meta: TextMap<bool>,
    /// `hasInstallScript`.
    pub has_install_script: bool,
    /// Optional install.
    pub optional: bool,
    /// Dev-only install.
    pub dev: bool,
    /// Peer install.
    pub peer: bool,
    /// Supported CPUs.
    pub cpu: Vec<String>,
    /// Supported OSes.
    pub os: Vec<String>,
    /// Bundled dependencies, sorted and deduplicated.
    pub bundled_dependencies: Vec<String>,
    /// Workspace member or root.
    pub is_workspace: bool,
    /// Installed as a link.
    pub is_link: bool,
    /// Heuristically a native addon.
    pub likely_native: bool,
    /// Command name → path.
    pub bin: TextMap<String>,
}

impl DeepView for PackageNode {
    type V = PackageNode;

    open spec fn deep_view(&self) -> PackageNode {
        *self
    }
}

/// One `packages` entry of a package-lock (already decoded).
#[derive(Debug)]
pub struct PackagesEntry {
    /// `name`.
    pub name: Option<String>,
    /// `version`.
    pub version: Option<String>,
    /// `resolved`.
    pub resolved: Option<String>,
    /// `integrity`.
    pub integrity: Option<String>,
    /// `dependencies`.
    pub dependencies: TextMap<String>,
    /// `devDependencies`.
    pub dev_dependencies: TextMap<String>,
    /// `optionalDependencies`.
    pub optional_dependencies: TextMap<String>,
    /// `peerDependencies`.
    pub peer_dependencies: TextMap<String>,
    /// `peerDependenciesMeta` (name → optional).
    pub peer_dependencies_meta: TextMap<bool>,
    /// `hasInstallScript`.
    pub has_install_script: bool,
    /// `optional`.
    pub optional: bool,
    /// `dev`.
    pub dev: bool,
    /// `peer`.
    pub peer: bool,
    /// `link`.
    pub link: bool,
    /// `cpu`.
    pub cpu: StringOrVec,
    /// `os`.
    pub os: StringOrVec,
    /// `bundledDependencies`.
    pub bundled_dependencies: Vec<String>,
    /// `bundleDependencies`.
    pub bundle_dependencies_alias: Vec<String>,
    /// `bin`.
    pub bin: BinField,
}

/// The maps of an entry are well formed.
pub open spec fn entry_wf(e: PackagesEntry) -> bool {
    &&& e.dependencies.wf()
    &&& e.dev_dependencies.wf()
    &&& e.optional_dependencies.wf()
    &&& e.peer_dependencies.wf()
    &&& e.peer_dependencies_meta.wf()
    &&& (e.bin matches BinField::Table(m) ==> m.wf())
}

/// The maps of a node are well formed.
pub open spec fn node_wf(n: PackageNode) -> bool {
    &&& n.dependencies.wf()
    &&& n.dev_dependencies.wf()
    &&& n.optional_dependencies.wf()
    &&& n.peer_dependencies.wf()
    &&& n.peer_dependencies_meta.wf()
    &&& n.bin.wf()
}

/// The name a node gets: its own, else the one its key implies.
pub open spec fn entry_name(raw_key: Seq<char>, e: PackagesEntry) -> Option<Seq<char>> {
    match opt_view(e.name) {
        Some(n) => Some(n),
        None => infer_name_from_key_spec(raw_key),
    }
}

/// Whether an entry is a workspace member (or the root).
pub open spec fn entry_is_workspace(raw_key: Seq<char>, e: PackagesEntry) -> bool {
    raw_key.len() == 0 || (e.resolved.is_none() && !starts_with(raw_key, "node_modules/"@))
        || is_workspace_path_spec(raw_key)
}

/// `n` is the node the entry under `raw_key` describes.
pub open spec fn node_of_entry(n: PackageNode, raw_key: Seq<char>, e: PackagesEntry) -> bool {
    let name = entry_name(raw_key, e);
    let is_link = e.link || link_resolved(opt_view(e.resolved));
    let is_workspace = entry_is_workspace(raw_key, e);
    &&& node_wf(n)
    &&& n.key@ == raw_key
    &&& opt_view(n.name) == name
    &&& n.version == e.version
    &&& n.source@ == source_of(opt_view(e.resolved), is_link, is_workspace)
    &&& n.integrity == e.integrity
    &&& n.dependencies == e.dependencies
    &&& n.dev_dependencies == e.dev_dependencies
    &&& n.optional_dependencies == e.optional_dependencies
    &&& n.peer_dependencies == e.peer_dependencies
    &&& n.peer_dependencies_meta == e.peer_dependencies_meta
    &&& n.has_install_script == e.has_install_script
    &&& n.optional == e.optional
    &&& n.dev == e.dev
    &&& n.peer == e.peer
    &&& match e.cpu {
        StringOrVec::Absent => n.cpu@.len() == 0,
        StringOrVec::One(s) => n.cpu.deep_view() == seq![s@],
        StringOrVec::Many(v) => n.cpu == v,
    }
    &&& match e.os {
        StringOrVec::Absent => n.os@.len() == 0,
        StringOrVec::One(s) => n.os.deep_view() == seq![s@],
        StringOrVec::Many(v) => n.os == v,
    }
    &&& n.bundled_dependencies.deep_view() == crate::textmap::sorted_set(
        e.bundled_dependencies.deep_view() + e.bundle_dependencies_alias.deep_view(),
    )
    &&& n.is_workspace == is_workspace
    &&& n.is_link == is_link
    &&& n.likely_native == native_spec(name, e.has_install_script, e.dependencies, e.optional_dependencies)
    &&& match e.bin {
        BinField::Absent => n.bin.spec_entries().len() == 0,
        BinField::Path(path) => match name {
            None => n.bin.spec_entries().len() == 0,
            Some(nm) => n.bin.spec_entries() == seq![(last_name_part(nm), path@)],
        },
        BinField::Table(m) => n.bin == m,
    }
}

fn concat_strs(a: &Vec<String>, b: &Vec<String>) -> (r: Vec<String>)
    ensures
        r.deep_view() == a.deep_view() + b.deep_view(),
{
    let mut out = crate::text::copy_strings(a);
    let ghost base = out.deep_view();
    let mut i: usize = 0;
    while i < b.len()
        invariant
            i <= b@.len(),
            base == a.deep_view(),
            out.deep_view() == base + b.deep_view().take(i as int),
        decreases b@.len() - i,
    {
        let ghost before = out.deep_view();
        out.push(own(b[i].as_str()));
        assert(out.deep_view() =~= before.push(b@[i as int]@));
        assert(b.deep_view().take(i + 1) =~= b.deep_view().take(i as int).push(b@[i as int]@));
        i += 1;
    }
    assert(b.deep_view().take(b@.len() as int) =~= b.deep_view());
    out
}

/// Build the node an entry under `raw_key` describes.
pub fn node_from_entry(raw_key: &str, entry: PackagesEntry) -> (r: PackageNode)
    requires
        entry_wf(entry),
    ensures
        node_of_entry(r, raw_key@, entry),
{
    let name = match &entry.name {
        Some(n) => Some(own(n.as_str())),
        None => infer_name_from_key(raw_key),
    };
    let resolved = match &entry.resolved {
        Some(r) => Some(r.as_str()),
        None => None,
    };
    let is_link = entry.link || is_link_resolved(resolved);
    let is_workspace = raw_key.is_empty() || (entry.resolved.is_none()
        && !crate::text::str_starts_with(raw_key, "node_modules/")) || is_workspace_path(raw_key);
    proof {
        reveal_strlit("");
    }
    let source = classify_source(resolved, is_link, is_workspace);
    let all_bundled = concat_strs(&entry.bundled_dependencies, &entry.bundle_dependencies_alias);
    let bundled = crate::textmap::sort_dedup(&all_bundled);
    let name_ref = match &name {
        Some(n) => Some(n.as_str()),
        None => None,
    };
    let likely_native = looks_native(name_ref, entry.has_install_script, &entry.dependencies, &entry.optional_dependencies);
    let bin = entry.bin.into_map(name_ref);
    PackageNode {
        key: PackageKey::new(own(raw_key)),
        name,
        version: entry.version,
        source,
        integrity: entry.integrity,
        dependencies: entry.dependencies,
        dev_dependencies: entry.dev_dependencies,
        optional_dependencies: entry.optional_dependencies,
        peer_dependencies: entry.peer_dependencies,
        peer_dependencies_meta: entry.peer_dependencies_meta,
        has_install_script: entry.has_install_script,
        optional: entry.optional,
        dev: entry.dev,
        peer: entry.peer,
        cpu: entry.cpu.into_vec(),
        os: entry.os.into_vec(),
        bundled_dependencies: bundled,
        is_workspace,
        is_link,
        likely_native,
        bin,
    }
}

// ---------------------------------------------------------------------------
// Node resolution
// ---------------------------------------------------------------------------

/// Where `name` would be installed for a package at `base`.
pub open spec fn dep_candidate(base: Seq<char>, name: Seq<char>) -> Seq<char> {
    if base.len() == 0 {
        "node_modules/"@ + name
    } else {
        base + "/node_modules/"@ + name
    }
}

/// The install location one level further out than `base`.
pub open spec fn outer_base(base: Seq<char>) -> Seq<char> {
    let i = crate::text::rfind(base, "/node_modules/"@);
    if 0 <= i < base.len() {
        base.take(i)
    } else {
        Seq::empty()
    }
}

/// Node resolution of `name` from `base`: the nearest `node_modules` on the
/// way out to the root that holds it.
pub open spec fn resolve_key(base: Seq<char>, name: Seq<char>, nodes: TextMap<PackageNode>) -> Option<Seq<char>>
    decreases base.len(),
{
    let c = dep_candidate(base, name);
    if nodes.spec_get(c).is_some() {
        Some(c)
    } else if base.len() == 0 {
        None
    } else {
        resolve_key(outer_base(base), name, nodes)
    }
}

/// `b` is an install location enclosing `parent`: the root (empty), `parent`
/// itself, or `parent` cut just before one of its `/node_modules/` segments.
pub open spec fn enclosing_location(parent: Seq<char>, b: Seq<char>) -> bool {
    b.len() == 0 || b == parent || exists|i: int|
        crate::text::occurs_at(parent, "/node_modules/"@, i) && b == parent.take(i)
}

/// Where a package named `name` installed for the location `b` lives.
pub open spec fn installed_at(b: Seq<char>, name: Seq<char>) -> Seq<char> {
    if b.len() == 0 {
        "node_modules/"@ + name
    } else {
        b + "/node_modules/"@ + name
    }
}

/// The `/node_modules/` segments of `parent` do not overlap.
pub open spec fn separate_segments(parent: Seq<char>) -> bool {
    forall|i: int, j: int|
        crate::text::occurs_at(parent, "/node_modules/"@, i) && crate::text::occurs_at(parent, "/node_modules/"@, j)
            && i < j ==> i + 14 <= j
}

/// The enclosing locations of `base` are `base` and those of the location
/// one level further out.
proof fn lemma_outer_locations(base: Seq<char>)
    requires
        base.len() > 0,
        separate_segments(base),
    ensures
        outer_base(base).len() < base.len(),
        separate_segments(outer_base(base)),
        forall|b: Seq<char>| enclosing_location(base, b) <==> (b == base || enclosing_location(outer_base(base), b)),
{
    reveal_strlit("/node_modules/");
    let sep = "/node_modules/"@;
    assert(sep.len() == 14);
    crate::text::lemma_rfind(base, sep);
    let j = crate::text::rfind(base, sep);
    let o = outer_base(base);
    if j >= 0 {
        assert(crate::text::occurs_at(base, sep, j));
        assert(o == base.take(j));
        assert forall|i: int| crate::text::occurs_at(o, sep, i) implies crate::text::occurs_at(base, sep, i) by {
            assert(base.subrange(i, i + 14) =~= o.subrange(i, i + 14));
        }
        assert forall|i: int| crate::text::occurs_at(base, sep, i) && i != j implies crate::text::occurs_at(o, sep, i)
            && base.take(i) == o.take(i) by {
            assert(i < j);
            assert(i + 14 <= j);
            assert(base.subrange(i, i + 14) =~= o.subrange(i, i + 14));
            assert(base.take(i) =~= o.take(i));
        }
        assert forall|b: Seq<char>| enclosing_location(base, b) <==> (b == base || enclosing_location(o, b)) by {
            if enclosing_location(o, b) && b.len() > 0 && b != o {
                let i = choose|i: int| crate::text::occurs_at(o, sep, i) && b == o.take(i);
                assert(o.take(i) =~= base.take(i));
            }
            if enclosing_location(base, b) && b != base && b.len() > 0 {
                let i = choose|i: int| crate::text::occurs_at(base, sep, i) && b == base.take(i);
                if i != j {
                    assert(o.take(i) == base.take(i));
                }
            }
        }
    } else {
        assert(o.len() == 0);
        assert forall|b: Seq<char>| enclosing_location(base, b) <==> (b == base || enclosing_location(o, b)) by {
            if enclosing_location(base, b) && b != base && b.len() > 0 {
                let i = choose|i: int| crate::text::occurs_at(base, sep, i) && b == base.take(i);
                assert(crate::text::has_sub(base, sep));
            }
        }
    }
}

/// Node resolution finds the nearest install: when `name` resolves from
/// `parent`, the result is installed (in `nodes`) at an enclosing location,
/// and no enclosing location nearer to `parent` holds `name`; when it does
/// not resolve, no enclosing location holds it.
pub proof fn lemma_resolution_nearest(parent: Seq<char>, name: Seq<char>, nodes: TextMap<PackageNode>)
    requires
        separate_segments(parent),
    ensures
        match resolve_key(parent, name, nodes) {
            Some(k) => nodes.spec_get(k).is_some() && exists|b: Seq<char>|
                enclosing_location(parent, b) && k == installed_at(b, name) && forall|b2: Seq<char>|
                    enclosing_location(parent, b2) && b2.len() > b.len() ==> nodes.spec_get(
                        installed_at(b2, name),
                    ).is_none(),
            None => forall|b: Seq<char>|
                enclosing_location(parent, b) ==> nodes.spec_get(installed_at(b, name)).is_none(),
        },
    decreases parent.len(),
{
    let c = dep_candidate(parent, name);
    assert(c == installed_at(parent, name));
    if nodes.spec_get(c).is_some() {
        assert(enclosing_location(parent, parent));
        assert forall|b2: Seq<char>| enclosing_location(parent, b2) implies b2.len() <= parent.len() by {
            if b2.len() > 0 && b2 != parent {
                let i = choose|i: int| crate::text::occurs_at(parent, "/node_modules/"@, i) && b2 == parent.take(i);
            }
        }
    } else if parent.len() == 0 {
        assert forall|b: Seq<char>| enclosing_location(parent, b) implies b.len() == 0 by {
            if b.len() > 0 && b != parent {
                let i = choose|i: int| crate::text::occurs_at(parent, "/node_modules/"@, i) && b == parent.take(i);
            }
        }
        assert forall|b: Seq<char>| enclosing_location(parent, b) implies nodes.spec_get(installed_at(b, name)).is_none() by {
            assert(b =~= parent);
        }
    } else {
        lemma_outer_locations(parent);
        let o = outer_base(parent);
        lemma_resolution_nearest(o, name, nodes);
        match resolve_key(o, name, nodes) {
            Some(k) => {
                let b = choose|b: Seq<char>|
                    enclosing_location(o, b) && k == installed_at(b, name) && forall|b2: Seq<char>|
                        enclosing_location(o, b2) && b2.len() > b.len() ==> nodes.spec_get(installed_at(b2, name)).is_none();
                assert(enclosing_location(parent, b));
                assert forall|b2: Seq<char>| enclosing_location(parent, b2) && b2.len() > b.len() implies nodes.spec_get(
                    installed_at(b2, name),
                ).is_none() by {
                    if b2 != parent {
                        assert(enclosing_location(o, b2));
                    }
                }
            },
            None => {
                assert forall|b: Seq<char>| enclosing_location(parent, b) implies nodes.spec_get(installed_at(b, name)).is_none() by {
                    if b != parent {
                        assert(enclosing_location(o, b));
                    }
                }
            },
        }
    }
}

/// Resolve the key `name` refers to from the package at `parent` (Node resolution).
pub fn resolve_dependency_key(parent: &str, name: &str, nodes: &TextMap<PackageNode>) -> (r: Option<String>)
    requires
        nodes.wf(),
    ensures
        opt_view(r) == resolve_key(parent@, name@, *nodes),
{
    let mut base = chars_of(parent);
    let sep = chars_of("/node_modules/");
    proof {
        reveal_strlit("/node_modules/");
    }
    loop
        invariant
            nodes.wf(),
            sep@ == "/node_modules/"@,
            sep@.len() == 14,
            resolve_key(base@, name@, *nodes) == resolve_key(parent@, name@, *nodes),
        decreases base@.len(),
    {
        let mut c = if base.len() == 0 {
            chars_of("node_modules/")
        } else {
            let mut b = crate::text::slice(&base, 0, base.len());
            extend_str(&mut b, "/node_modules/");
            b
        };
        extend_str(&mut c, name);
        assert(c@ == dep_candidate(base@, name@)) by {
            if base@.len() > 0 {
                assert(base@.subrange(0, base@.len() as int) =~= base@);
            }
        }
        let cs = string_of(&c);
        if nodes.contains_key(cs.as_str()) {
            return Some(cs);
        }
        if base.len() == 0 {
            return None;
        }
        proof {
            crate::text::lemma_rfind(base@, sep@);
        }
        match crate::text::rfind_chars(&base, &sep) {
            Some(i) => {
                assert(crate::text::occurs_at(base@, sep@, i as int));
                assert(i + 14 <= base@.len());
                base = crate::text::slice(&base, 0, i);
            },
            None => {
                base = Vec::new();
                assert(base@ =~= Seq::<char>::empty());
            },
        }
    }
}

// ---------------------------------------------------------------------------
// Edges
// ---------------------------------------------------------------------------

/// Kind of a dependency edge.
#[derive(Debug, Clone, Copy, PartialEq, Eq, Structural)]
pub enum EdgeKind {
    /// `dependencies`.
    Runtime,
    /// `devDependencies`.
    Dev,
    /// `optionalDependencies`.
    Optional,
    /// `peerDependencies`.
    Peer,
}

/// Declaration order of edge kinds.
pub open spec fn kind_rank(k: EdgeKind) -> int {
    match k {
        EdgeKind::Runtime => 0,
        EdgeKind::Dev => 1,
        EdgeKind::Optional => 2,
        EdgeKind::Peer => 3,
    }
}

/// A resolved dependency: `from` needs `name`, installed at `to`.
#[derive(Debug, PartialEq, Eq)]
pub struct DependencyEdge {
    /// Dependent package key.
    pub from: PackageKey,
    /// Resolved dependency key.
    pub to: PackageKey,
    /// Declared dependency name.
    pub name: String,
    /// Declaration kind.
    pub kind: EdgeKind,
}

/// An edge as plain values.
pub type EdgeModel = (Seq<char>, Seq<char>, Seq<char>, EdgeKind);

impl View for DependencyEdge {
    type V = EdgeModel;

    open spec fn view(&self) -> EdgeModel {
        (self.from@, self.to@, self.name@, self.kind)
    }
}

/// Edges by their plain values.
pub open spec fn edge_views(s: Seq<DependencyEdge>) -> Seq<EdgeModel> {
    s.map_values(|e: DependencyEdge| e@)
}

/// Edge order: by dependent, then dependency, then name, then kind.
pub open spec fn edge_lt(a: EdgeModel, b: EdgeModel) -> bool {
    lex_lt(a.0, b.0) || (a.0 == b.0 && (lex_lt(a.1, b.1) || (a.1 == b.1 && (lex_lt(a.2, b.2) || (
    a.2 == b.2 && kind_rank(a.3) < kind_rank(b.3))))))
}

/// `edge_lt` is irreflexive.
pub proof fn lemma_edge_irrefl(a: EdgeModel)
    ensures
        !edge_lt(a, a),
{
    crate::textmap::lemma_lex_irrefl(a.0);
    crate::textmap::lemma_lex_irrefl(a.1);
    crate::textmap::lemma_lex_irrefl(a.2);
}

/// `edge_lt` is transitive.
pub proof fn lemma_edge_trans(a: EdgeModel, b: EdgeModel, c: EdgeModel)
    requires
        edge_lt(a, b),
        edge_lt(b, c),
    ensures
        edge_lt(a, c),
{
    if lex_lt(a.0, b.0) && lex_lt(b.0, c.0) {
        crate::textmap::lemma_lex_trans(a.0, b.0, c.0);
    } else if a.0 == b.0 && b.0 == c.0 {
        if lex_lt(a.1, b.1) && lex_lt(b.1, c.1) {
            crate::textmap::lemma_lex_trans(a.1, b.1, c.1);
        } else if a.1 == b.1 && b.1 == c.1 {
            if lex_lt(a.2, b.2) && lex_lt(b.2, c.2) {
                crate::textmap::lemma_lex_trans(a.2, b.2, c.2);
            }
        }
    }
}

/// Any two edges are equal or ordered one way.
pub proof fn lemma_edge_total(a: EdgeModel, b: EdgeModel)
    ensures
        a == b || edge_lt(a, b) || edge_lt(b, a),
{
    crate::textmap::lemma_lex_total(a.0, b.0);
    crate::textmap::lemma_lex_total(a.1, b.1);
    crate::textmap::lemma_lex_total(a.2, b.2);
}

/// Edges in strictly increasing order (sorted, no duplicates).
pub open spec fn edges_sorted(s: Seq<EdgeModel>) -> bool {
    forall|i: int, j: int| 0 <= i < j < s.len() ==> edge_lt(s[i], s[j])
}

fn rank_of(k: EdgeKind) -> (r: u8)
    ensures
        r as int == kind_rank(k),
{
    match k {
        EdgeKind::Runtime => 0,
        EdgeKind::Dev => 1,
        EdgeKind::Optional => 2,
        EdgeKind::Peer => 3,
    }
}

fn edge_order(a: &DependencyEdge, b: &DependencyEdge) -> (r: i8)
    ensures
        r < 0 <==> edge_lt(a@, b@),
        r == 0 <==> a@ == b@,
        r > 0 <==> edge_lt(b@, a@),
{
    proof {
        lemma_edge_total(a@, b@);
        crate::textmap::lemma_lex_asym(a@.0, b@.0);
        crate::textmap::lemma_lex_asym(a@.1, b@.1);
        crate::textmap::lemma_lex_asym(a@.2, b@.2);
        crate::textmap::lemma_lex_irrefl(a@.0);
        crate::textmap::lemma_lex_irrefl(a@.1);
        crate::textmap::lemma_lex_irrefl(a@.2);
    }
    let c0 = crate::textmap::lex_order(&chars_of(a.from.as_str()), &chars_of(b.from.as_str()));
    if c0 != 0 {
        return c0;
    }
    let c1 = crate::textmap::lex_order(&chars_of(a.to.as_str()), &chars_of(b.to.as_str()));
    if c1 != 0 {
        return c1;
    }
    let c2 = crate::textmap::lex_order(&chars_of(a.name.as_str()), &chars_of(b.name.as_str()));
    if c2 != 0 {
        return c2;
    }
    let ra = rank_of(a.kind);
    let rb = rank_of(b.kind);
    if ra < rb {
        -1
    } else if ra > rb {
        1
    } else {
        0
    }
}

/// Add an edge to a strictly sorted edge list, keeping it strictly sorted.
#[verifier::rlimit(40)]
fn insert_edge(v: &mut Vec<DependencyEdge>, x: DependencyEdge)
    requires
        edges_sorted(edge_views(old(v)@)),
    ensures
        edges_sorted(edge_views(final(v)@)),
        edge_views(final(v)@).to_set() == edge_views(old(v)@).to_set().insert(x@),
{
    let ghost ov = edge_views(v@);
    let mut j: usize = 0;
    while j < v.len() && edge_order(&v[j], &x) < 0
        invariant
            j <= v@.len(),
            ov == edge_views(v@),
            forall|k: int| 0 <= k < j ==> edge_lt(ov[k], x@),
        decreases v@.len() - j,
    {
        assert(ov[j as int] == v@[j as int]@);
        j += 1;
    }
    if j < v.len() && edge_order(&v[j], &x) == 0 {
        assert(ov[j as int] == v@[j as int]@);
        assert(ov.contains(x@));
        assert(ov.to_set().insert(x@) =~= ov.to_set());
        return;
    }
    if j < v.len() {
        assert(ov[j as int] == v@[j as int]@);
        assert(edge_lt(x@, ov[j as int]));
    }
    let ghost xv = x@;
    let ghost oo = v@;
    v.insert(j, x);
    proof {
        ov.insert_ensures(j as int, xv);
        oo.insert_ensures(j as int, v@[j as int]);
        assert(edge_views(v@) =~= ov.insert(j as int, xv));
        crate::textmap::lemma_seq_insert_set(ov, j as int, xv);
        let nv = edge_views(v@);
        assert forall|a: int, b: int| 0 <= a < b < nv.len() implies edge_lt(nv[a], nv[b]) by {
            if b < j {
            } else if a < j && b == j {
            } else if a < j && b > j {
                if b - 1 > j {
                    lemma_edge_trans(xv, ov[j as int], ov[b - 1]);
                }
                lemma_edge_trans(ov[a], xv, ov[b - 1]);
            } else if a == j {
                if b - 1 > j {
                    lemma_edge_trans(xv, ov[j as int], ov[b - 1]);
                }
            } else {
            }
        }
    }
}

/// Keys of a map, in key order.
pub open spec fn map_keys(m: TextMap<String>) -> Seq<Seq<char>> {
    m.spec_entries().map_values(|e: (Seq<char>, Seq<char>)| e.0)
}

/// Edges from `parent` for the declared `names` that resolve, in order.
pub open spec fn dep_edges(parent: Seq<char>, names: Seq<Seq<char>>, kind: EdgeKind, nodes: TextMap<PackageNode>) -> Seq<EdgeModel>
    decreases names.len(),
{
    if names.len() == 0 {
        Seq::empty()
    } else {
        let prev = dep_edges(parent, names.drop_last(), kind, nodes);
        match resolve_key(parent, names.last(), nodes) {
            Some(c) => prev.push((parent, c, names.last(), kind)),
            None => prev,
        }
    }
}

/// Every edge a node declares and that resolves.
pub open spec fn node_edges(n: PackageNode, nodes: TextMap<PackageNode>) -> Seq<EdgeModel> {
    dep_edges(n.key@, map_keys(n.dependencies), EdgeKind::Runtime, nodes) + dep_edges(
        n.key@,
        map_keys(n.dev_dependencies),
        EdgeKind::Dev,
        nodes,
    ) + dep_edges(n.key@, map_keys(n.optional_dependencies), EdgeKind::Optional, nodes) + dep_edges(
        n.key@,
        map_keys(n.peer_dependencies),
        EdgeKind::Peer,
        nodes,
    )
}

/// Every edge of the listed nodes.
pub open spec fn all_edges(ns: Seq<PackageNode>, nodes: TextMap<PackageNode>) -> Seq<EdgeModel>
    decreases ns.len(),
{
    if ns.len() == 0 {
        Seq::empty()
    } else {
        all_edges(ns.drop_last(), nodes) + node_edges(ns.last(), nodes)
    }
}

/// The nodes of a graph map, in key order.
pub open spec fn node_list(nodes: TextMap<PackageNode>) -> Seq<PackageNode> {
    nodes.spec_entries().map_values(|e: (Seq<char>, PackageNode)| e.1)
}

fn push_dep_edges(out: &mut Vec<DependencyEdge>, parent: &PackageKey, deps: &TextMap<String>, kind: EdgeKind, nodes: &TextMap<PackageNode>)
    requires
        nodes.wf(),
        edges_sorted(edge_views(old(out)@)),
    ensures
        edges_sorted(edge_views(final(out)@)),
        edge_views(final(out)@).to_set() == (edge_views(old(out)@) + dep_edges(parent@, map_keys(*deps), kind, *nodes)).to_set(),
{
    let ghost base = edge_views(out@);
    let ghost ks = map_keys(*deps);
    let mut i: usize = 0;
    assert(base + dep_edges(parent@, ks.take(0), kind, *nodes) =~= base);
    while i < deps.len()
        invariant
            i <= ks.len(),
            ks == map_keys(*deps),
            nodes.wf(),
            edges_sorted(edge_views(out@)),
            edge_views(out@).to_set() == (base + dep_edges(parent@, ks.take(i as int), kind, *nodes)).to_set(),
        decreases ks.len() - i,
    {
        let name = deps.key_at(i);
        assert(ks.take(i + 1).drop_last() =~= ks.take(i as int));
        assert(ks.take(i + 1).last() == name@);
        let ghost prev = base + dep_edges(parent@, ks.take(i as int), kind, *nodes);
        match resolve_dependency_key(parent.as_str(), name.as_str(), nodes) {
            Some(child) => {
                let e = DependencyEdge { from: parent.copy(), to: PackageKey::new(child), name: own(name.as_str()), kind };
                let ghost ev = e@;
                insert_edge(out, e);
                proof {
                    assert(base + dep_edges(parent@, ks.take(i + 1), kind, *nodes) =~= prev.push(ev));
                    prev.lemma_push_to_set_commute(ev);
                }
            },
            None => {
                assert(base + dep_edges(parent@, ks.take(i + 1), kind, *nodes) =~= prev);
            },
        }
        i += 1;
    }
    assert(ks.take(ks.len() as int) =~= ks);
}

/// The resolved dependency edges of all nodes, sorted and deduplicated.
pub fn build_edges_from_nodes(nodes: &TextMap<PackageNode>) -> (r: Vec<DependencyEdge>)
    requires
        nodes.wf(),
    ensures
        edges_sorted(edge_views(r@)),
        edge_views(r@).to_set() == all_edges(node_list(*nodes), *nodes).to_set(),
{
    let mut out: Vec<DependencyEdge> = Vec::new();
    let ghost ns = node_list(*nodes);
    let mut i: usize = 0;
    assert(edge_views(out@) =~= Seq::<EdgeModel>::empty());
    assert(all_edges(ns.take(0), *nodes) =~= Seq::<EdgeModel>::empty());
    while i < nodes.len()
        invariant
            i <= ns.len(),
            ns == node_list(*nodes),
            nodes.wf(),
            edges_sorted(edge_views(out@)),
            edge_views(out@).to_set() == all_edges(ns.take(i as int), *nodes).to_set(),
        decreases ns.len() - i,
    {
        let parent = nodes.value_at(i);
        assert(ns[i as int] == *parent);
        assert(ns.take(i + 1).drop_last() =~= ns.take(i as int));
        let ghost a0 = edge_views(out@);
        let ghost k = parent.key@;
        let ghost d1 = dep_edges(k, map_keys(parent.dependencies), EdgeKind::Runtime, *nodes);
        let ghost d2 = dep_edges(k, map_keys(parent.dev_dependencies), EdgeKind::Dev, *nodes);
        let ghost d3 = dep_edges(k, map_keys(parent.optional_dependencies), EdgeKind::Optional, *nodes);
        let ghost d4 = dep_edges(k, map_keys(parent.peer_dependencies), EdgeKind::Peer, *nodes);
        push_dep_edges(&mut out, &parent.key, &parent.dependencies, EdgeKind::Runtime, nodes);
        let ghost a1 = edge_views(out@);
        push_dep_edges(&mut out, &parent.key, &parent.dev_dependencies, EdgeKind::Dev, nodes);
        let ghost a2 = edge_views(out@);
        push_dep_edges(&mut out, &parent.key, &parent.optional_dependencies, EdgeKind::Optional, nodes);
        let ghost a3 = edge_views(out@);
        push_dep_edges(&mut out, &parent.key, &parent.peer_dependencies, EdgeKind::Peer, nodes);
        proof {
            let p = all_edges(ns.take(i as int), *nodes);
            lemma_concat_set(a0, d1);
            lemma_concat_set(a1, d2);
            lemma_concat_set(a2, d3);
            lemma_concat_set(a3, d4);
            lemma_concat_set(p, d1 + d2 + d3 + d4);
            lemma_concat_set(d1, d2);
            lemma_concat_set(d1 + d2, d3);
            lemma_concat_set(d1 + d2 + d3, d4);
            assert(all_edges(ns.take(i + 1), *nodes) == p + (d1 + d2 + d3 + d4));
            assert(edge_views(out@).to_set() =~= (p + (d1 + d2 + d3 + d4)).to_set());
        }
        i += 1;
    }
    assert(ns.take(ns.len() as int) =~= ns);
    out
}

/// The set of a concatenation is the union of the sets.
pub proof fn lemma_concat_set<A>(a: Seq<A>, b: Seq<A>)
    ensures
        (a + b).to_set() == a.to_set().union(b.to_set()),
{
    assert forall|x: A| (a + b).contains(x) <==> (a.contains(x) || b.contains(x)) by {
        if (a + b).contains(x) {
            let k = choose|k: int| 0 <= k < (a + b).len() && (a + b)[k] == x;
            if k < a.len() {
                assert(a[k] == x);
            } else {
                assert(b[k - a.len()] == x);
            }
        }
        if a.contains(x) {
            let k = choose|k: int| 0 <= k < a.len() && a[k] == x;
            assert((a + b)[k] == x);
        }
        if b.contains(x) {
            let k = choose|k: int| 0 <= k < b.len() && b[k] == x;
            assert((a + b)[a.len() + k] == x);
        }
    }
    assert((a + b).to_set() =~= a.to_set().union(b.to_set()));
}

// ---------------------------------------------------------------------------
// Graphs
// ---------------------------------------------------------------------------

/// Which lockfile a graph was read from.
#[derive(Debug, Clone, Copy, PartialEq, Eq, Structural)]
pub enum LockfileKind {
    /// npm `package-lock.json`.
    NpmPackageLock,
}

/// The installed packages of a project and their resolved dependencies.
#[derive(Debug)]
pub struct DependencyGraph {
    /// Lockfile kind.
    pub lockfile_kind: LockfileKind,
    /// `lockfileVersion`.
    pub lockfile_version: u32,
    /// Root key.
    pub root: PackageKey,
    /// Nodes by key.
    pub nodes: TextMap<PackageNode>,
    /// Resolved edges, sorted and deduplicated.
    pub edges: Vec<DependencyEdge>,
}

impl DependencyGraph {
    /// The node map is sorted and every node's maps are well formed.
    pub open spec fn wf(&self) -> bool {
        &&& self.nodes.wf()
        &&& forall|k: Seq<char>|
            #![trigger self.nodes.spec_get(k)]
            self.nodes.spec_get(k) matches Some(n) ==> node_wf(n)
    }

    /// Number of installed packages: every node but the root.
    pub fn package_count(&self) -> (r: usize)
        requires
            self.wf(),
        ensures
            r == self.nodes.spec_entries().len() - if self.nodes.spec_get(Seq::empty()).is_some() {
                1int
            } else {
                0int
            },
    {
        let n = self.nodes.len();
        proof {
            reveal_strlit("");
            assert(""@ =~= Seq::<char>::empty());
        }
        if self.nodes.contains_key("") {
            proof {
                let e = self.nodes.spec_entries();
                assert(exists|i: int| 0 <= i < e.len() && e[i].0 == Seq::<char>::empty());
            }
            n - 1
        } else {
            n
        }
    }
}

/// Index of the last entry with key `k`, or -1.
pub open spec fn last_with_key(es: Seq<(String, PackagesEntry)>, k: Seq<char>) -> int
    decreases es.len(),
{
    if es.len() == 0 {
        -1
    } else if es.last().0@ == k {
        es.len() - 1
    } else {
        last_with_key(es.drop_last(), k)
    }
}

/// The nodes hold, for every key of the entries, the node its last entry describes.
pub open spec fn nodes_of_entries(nodes: TextMap<PackageNode>, es: Seq<(String, PackagesEntry)>) -> bool {
    forall|k: Seq<char>|
        #![trigger nodes.spec_get(k)]
        {
            let i = last_with_key(es, k);
            if i < 0 {
                nodes.spec_get(k).is_none()
            } else {
                nodes.spec_get(k) matches Some(n) && node_of_entry(n, k, es[i].1)
            }
        }
}

/// `last_with_key` is an index of the entries holding `k`.
pub proof fn lemma_last_with_key(es: Seq<(String, PackagesEntry)>, k: Seq<char>)
    ensures
        -1 <= last_with_key(es, k) < es.len(),
        last_with_key(es, k) >= 0 ==> es[last_with_key(es, k)].0@ == k,
    decreases es.len(),
{
    if es.len() > 0 && es.last().0@ != k {
        lemma_last_with_key(es.drop_last(), k);
    }
}

/// After inserting the nodes of `es` in order, every key of the entries holds
/// the node its last entry describes, and other keys are as they were.
pub open spec fn nodes_over(after: TextMap<PackageNode>, before: TextMap<PackageNode>, es: Seq<(String, PackagesEntry)>) -> bool {
    forall|k: Seq<char>|
        #![trigger after.spec_get(k)]
        {
            let i = last_with_key(es, k);
            if i < 0 {
                after.spec_get(k) == before.spec_get(k)
            } else {
                after.spec_get(k) matches Some(n) && node_of_entry(n, k, es[i].1)
            }
        }
}

/// Insert the node of each entry, in order (a later entry replaces an
/// earlier one with the same key).
pub fn insert_entries(nodes: &mut TextMap<PackageNode>, entries: Vec<(String, PackagesEntry)>)
    requires
        old(nodes).wf(),
        forall|i: int| 0 <= i < entries@.len() ==> entry_wf(#[trigger] entries@[i].1),
    ensures
        final(nodes).wf(),
        nodes_over(*final(nodes), *old(nodes), entries@),
{
    let ghost orig = entries@;
    let ghost start = *nodes;
    let mut src = entries;
    let total = src.len();
    let mut k: usize = 0;
    assert(src@ =~= orig.skip(0));
    while src.len() > 0
        invariant
            k <= orig.len(),
            orig.len() == total,
            src@ == orig.skip(k as int),
            forall|i: int| 0 <= i < orig.len() ==> entry_wf(#[trigger] orig[i].1),
            nodes.wf(),
            nodes_over(*nodes, start, orig.take(k as int)),
        decreases src@.len(),
    {
        let ghost sv = src@;
        let (key, entry) = src.remove(0);
        proof {
            sv.remove_ensures(0);
            assert(src@ =~= orig.skip(k + 1));
            assert(orig[k as int] == sv[0]);
        }
        let ghost kv = key@;
        let ghost before = *nodes;
        let node = node_from_entry(key.as_str(), entry);
        nodes.insert(key, node);
        proof {
            let t = orig.take(k + 1);
            assert(t.drop_last() =~= orig.take(k as int));
            assert(t.last().0@ == kv);
            assert forall|q: Seq<char>| #![trigger nodes.spec_get(q)] {
                let i = last_with_key(t, q);
                if i < 0 {
                    nodes.spec_get(q) == start.spec_get(q)
                } else {
                    nodes.spec_get(q) matches Some(n) && node_of_entry(n, q, t[i].1)
                }
            } by {
                if q != kv {
                    assert(last_with_key(t, q) == last_with_key(orig.take(k as int), q));
                    assert(nodes.spec_get(q) == before.spec_get(q));
                    lemma_last_with_key(orig.take(k as int), q);
                    if last_with_key(t, q) >= 0 {
                        assert(t[last_with_key(t, q)] == orig.take(k as int)[last_with_key(t, q)]);
                    }
                } else {
                    assert(last_with_key(t, q) == k);
                }
            }
        }
        k += 1;
    }
    assert(orig.take(k as int) =~= orig);
}

/// Build the graph of a lockfileVersion 2/3 `packages` object, given as its
/// entries in order. Fails without a `packages` object or a root entry.
pub fn graph_from_packages(path: &str, version: u32, packages: Option<Vec<(String, PackagesEntry)>>) -> (r: Result<DependencyGraph, Error>)
    requires
        packages matches Some(es) ==> forall|i: int| 0 <= i < es@.len() ==> entry_wf(#[trigger] es@[i].1),
    ensures
        match packages {
            None => r matches Err(Error::InvalidLockfile { path: p, reason }) && p@ == path@
                && reason@ == "missing packages object"@,
            Some(es) => if last_with_key(es@, Seq::empty()) < 0 {
                r matches Err(Error::InvalidLockfile { path: p, reason }) && p@ == path@
                    && reason@ == "packages map is missing the root entry \"\""@
            } else {
                r matches Ok(g) && g.lockfile_kind == LockfileKind::NpmPackageLock
                    && g.lockfile_version == version && g.root@ == Seq::<char>::empty() && g.nodes.wf() && g.wf()
                    && nodes_of_entries(g.nodes, es@) && edges_sorted(edge_views(g.edges@))
                    && edge_views(g.edges@).to_set() == all_edges(node_list(g.nodes), g.nodes).to_set()
            },
        },
{
    let entries = match packages {
        None => {
            return Err(Error::InvalidLockfile { path: own(path), reason: own("missing packages object") });
        },
        Some(es) => es,
    };
    let ghost orig = entries@;
    let mut nodes: TextMap<PackageNode> = TextMap::new();
    let ghost empty = nodes;
    insert_entries(&mut nodes, entries);
    proof {
        reveal_strlit("");
        assert(""@ =~= Seq::<char>::empty());
        assert forall|k: Seq<char>| #![trigger nodes.spec_get(k)] last_with_key(orig, k) < 0 implies nodes.spec_get(k).is_none() by {
            assert(nodes.spec_get(k) == empty.spec_get(k));
        }
        assert(nodes_of_entries(nodes, orig));
        let _ = nodes.spec_get(Seq::<char>::empty());
    }
    if !nodes.contains_key("") {
        return Err(
            Error::InvalidLockfile {
                path: own(path),
                reason: own("packages map is missing the root entry \"\""),
            },
        );
    }
    let edges = build_edges_from_nodes(&nodes);
    proof {
        assert forall|k: Seq<char>| #![trigger nodes.spec_get(k)] (nodes.spec_get(k) matches Some(n) ==> node_wf(n)) by {
            lemma_last_with_key(orig, k);
        }
    }
    Ok(
        DependencyGraph {
            lockfile_kind: LockfileKind::NpmPackageLock,
            lockfile_version: version,
            root: PackageKey::root(),
            nodes,
            edges,
        },
    )
}

/// Lockfile formats by `lockfileVersion`.
#[derive(Debug, Clone, Copy, PartialEq, Eq, Structural)]
pub enum LockfileFormat {
    /// Nested `dependencies` (version 1).
    Nested,
    /// Flat `packages` (versions 2 and 3).
    Packages,
}

/// The format of a lockfile version (absent means 1, as npm wrote it first);
/// other versions are refused.
pub fn lockfile_format(path: &str, version: u32) -> (r: Result<LockfileFormat, Error>)
    ensures
        version == 1 ==> r matches Ok(LockfileFormat::Nested),
        (version == 2 || version == 3) ==> r matches Ok(LockfileFormat::Packages),
        !(1 <= version <= 3) ==> (r matches Err(Error::UnsupportedLockfile { path: p, reason }) && p@
            == path@ && reason@ == "lockfileVersion "@ + crate::text::decimal(version as nat)
            + " is not supported yet"@),
{
    if version == 1 {
        Ok(LockfileFormat::Nested)
    } else if version == 2 || version == 3 {
        Ok(LockfileFormat::Packages)
    } else {
        let mut m = chars_of("lockfileVersion ");
        extend_str(&mut m, crate::text::decimal_string(version as u64).as_str());
        extend_str(&mut m, " is not supported yet");
        Err(Error::UnsupportedLockfile { path: own(path), reason: string_of(&m) })
    }
}

/// A detected lockfile.
#[derive(Debug)]
pub struct LockfileInfo {
    /// Path to the lockfile.
    pub path: String,
    /// Kind of lockfile.
    pub kind: LockfileKind,
    /// `lockfileVersion`.
    pub lockfile_version: Option<u32>,
}

/// Lockfiles of other package managers, checked in this order, with the
/// manager's name.
pub open spec fn foreign_lockfiles() -> Seq<(Seq<char>, Seq<char>)> {
    seq![("pnpm-lock.yaml"@, "pnpm"@), ("yarn.lock"@, "Yarn"@), ("bun.lockb"@, "Bun"@), ("bun.lock"@, "Bun"@)]
}

/// Index of the first foreign lockfile among `present`, or 4.
pub open spec fn first_foreign(present: Seq<Seq<char>>, i: int) -> int
    decreases 4 - i,
{
    if i < 0 || i >= 4 {
        4
    } else if list_has(present, foreign_lockfiles()[i].0) {
        i
    } else {
        first_foreign(present, i + 1)
    }
}

/// Detect the lockfile of the project at `root`, given the names of the
/// regular files there and, when `package-lock.json` is one of them, the
/// `lockfileVersion` its header declares. Without `package-lock.json`, the
/// lockfile of another package manager is an error and no lockfile is `None`.
pub fn detect_lockfile_in(root: &str, present: &Vec<String>, header_version: Option<u32>) -> (r: Result<Option<LockfileInfo>, Error>)
    ensures
        ({
            let names = present.deep_view();
            let npm = crate::paths::path_push(root@, "package-lock.json"@);
            if !list_has(names, "package-lock.json"@) {
                let k = first_foreign(names, 0);
                if k < 4 {
                    r matches Err(Error::UnsupportedLockfile { path, reason }) && path@
                        == crate::paths::path_push(root@, foreign_lockfiles()[k].0) && reason@
                        == foreign_lockfiles()[k].1
                        + " lockfile present without package-lock.json; Weave currently supports npm package-lock.json only"@
                } else {
                    r matches Ok(None)
                }
            } else {
                let v = match header_version {
                    Some(v) => v,
                    None => 1u32,
                };
                if 1 <= v <= 3 {
                    r matches Ok(Some(info)) && info.path@ == npm && info.kind == LockfileKind::NpmPackageLock
                        && info.lockfile_version == Some(v)
                } else {
                    r matches Err(Error::UnsupportedLockfile { path, reason }) && path@ == npm && reason@
                        == "lockfileVersion "@ + crate::text::decimal(v as nat) + " is not supported yet"@
                }
            }
        }),
{
    let mut npm = chars_of(root);
    crate::paths::push_path(&mut npm, &chars_of("package-lock.json"));
    if !crate::text::vec_has(present, "package-lock.json") {
        let names = vec!["pnpm-lock.yaml", "yarn.lock", "bun.lockb", "bun.lock"];
        let labels = vec!["pnpm", "Yarn", "Bun", "Bun"];
        assert(names@.len() == 4 && labels@.len() == 4);
        let mut i: usize = 0;
        while i < 4
            invariant
                i <= 4,
                names@.len() == 4,
                labels@.len() == 4,
                forall|j: int| 0 <= j < 4 ==> names@[j]@ == #[trigger] foreign_lockfiles()[j].0 && labels@[j]@
                    == foreign_lockfiles()[j].1,
                first_foreign(present.deep_view(), 0) == first_foreign(present.deep_view(), i as int),
                !list_has(present.deep_view(), "package-lock.json"@),
            decreases 4 - i,
        {
            if crate::text::vec_has(present, names[i]) {
                assert(first_foreign(present.deep_view(), i as int) == i);
                let mut p = chars_of(root);
                crate::paths::push_path(&mut p, &chars_of(names[i]));
                let mut m = chars_of(labels[i]);
                extend_str(
                    &mut m,
                    " lockfile present without package-lock.json; Weave currently supports npm package-lock.json only",
                );
                return Err(Error::UnsupportedLockfile { path: string_of(&p), reason: string_of(&m) });
            }
            i += 1;
        }
        return Ok(None);
    }
    let v: u32 = match header_version {
        Some(v) => v,
        None => 1,
    };
    if !(1 <= v && v <= 3) {
        let mut m = chars_of("lockfileVersion ");
        extend_str(&mut m, crate::text::decimal_string(v as u64).as_str());
        extend_str(&mut m, " is not supported yet");
        return Err(Error::UnsupportedLockfile { path: string_of(&npm), reason: string_of(&m) });
    }
    Ok(Some(LockfileInfo { path: string_of(&npm), kind: LockfileKind::NpmPackageLock, lockfile_version: Some(v) }))
}

} // verus!
