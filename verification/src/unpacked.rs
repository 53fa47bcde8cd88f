//! Layout of the unpacked package cache beside the object store:
//!
//! ```text
//! <store>/../unpacked/sha256/<ab>/<cdef…>/     extracted package contents
//! <store>/../unpacked/sha256/<ab>/<cdef…>.ready
//! ```
use vstd::prelude::*;
use crate::artifact::{shard_dir_spec, ArtifactId, ContentStore};
use crate::paths::{comp_text, comp_text_of, components, path_components, path_push, push_all, push_path, Comp, PathComp};
use crate::text::{chars_of, decimal, decimal_string, extend_str, string_of};

verus! {

/// `Path::parent`: the path without its last component; none for the root
/// alone or an empty path.
pub open spec fn parent_path(p: Seq<char>) -> Option<Seq<char>> {
    let cs = components(p);
    if cs.len() == 0 || cs.last() is Root {
        None
    } else {
        Some(push_all(Seq::empty(), cs.drop_last()))
    }
}

/// The parent directory of `p`, if it has one.
pub fn parent_of(p: &str) -> (r: Option<String>)
    ensures
        match (r, parent_path(p@)) {
            (Some(a), Some(b)) => a@ == b,
            (None, None) => true,
            _ => false,
        },
{
    let cs = path_components(&chars_of(p));
    let ghost v = cs@.map_values(|c: PathComp| c@);
    if cs.len() == 0 {
        return None;
    }
    match &cs[cs.len() - 1] {
        PathComp::RootDir => {
            assert(v.last() is Root);
            return None;
        },
        _ => {},
    }
    let n = cs.len() - 1;
    let mut out: Vec<char> = Vec::new();
    let mut i: usize = 0;
    assert(v.take(0) =~= Seq::<Comp>::empty());
    while i < n
        invariant
            n == cs@.len() - 1,
            i <= n,
            v == cs@.map_values(|c: PathComp| c@),
            out@ == push_all(Seq::empty(), v.take(i as int)),
        decreases n - i,
    {
        let t = comp_text_of(&cs[i]);
        push_path(&mut out, &t);
        assert(v.take(i + 1).drop_last() =~= v.take(i as int));
        assert(v.take(i + 1).last() == cs@[i as int]@);
        i += 1;
    }
    assert(v.take(n as int) =~= v.drop_last());
    Some(string_of(&out))
}

/// Content-addressed unpacked package cache.
#[derive(Debug)]
pub struct UnpackedCache {
    root: String,
}

/// The cache root for a store rooted at `store_root`: `unpacked` beside it.
pub open spec fn unpacked_root(store_root: Seq<char>) -> Seq<char> {
    match parent_path(store_root) {
        Some(p) => path_push(p, "unpacked"@),
        None => path_push(store_root, "unpacked"@),
    }
}

impl UnpackedCache {
    /// Cache root.
    pub closed spec fn spec_root(&self) -> Seq<char> {
        self.root@
    }

    /// The unpacked cache beside `store`'s object root.
    pub fn for_store(store: &ContentStore) -> (r: UnpackedCache)
        ensures
            r.spec_root() == unpacked_root(store.spec_root()),
    {
        let base = match parent_of(store.root()) {
            Some(p) => p,
            None => crate::text::own(store.root()),
        };
        let mut r = chars_of(base.as_str());
        push_path(&mut r, &chars_of("unpacked"));
        UnpackedCache { root: string_of(&r) }
    }

    /// Cache root directory.
    pub fn root(&self) -> (r: &str)
        ensures
            r@ == self.spec_root(),
    {
        self.root.as_str()
    }

    /// Shard directory of `id`: `<root>/sha256/<ab>`.
    pub fn shard_dir(&self, id: &ArtifactId) -> (r: String)
        ensures
            r@ == shard_dir_spec(self.spec_root(), id@),
    {
        let mut p = chars_of(self.root.as_str());
        push_path(&mut p, &chars_of("sha256"));
        push_path(&mut p, &chars_of(id.shard().as_str()));
        string_of(&p)
    }

    /// Directory holding the extracted package of `id`.
    pub fn package_dir(&self, id: &ArtifactId) -> (r: String)
        ensures
            r@ == path_push(shard_dir_spec(self.spec_root(), id@), id@.skip(2)),
    {
        let mut p = chars_of(self.shard_dir(id).as_str());
        push_path(&mut p, &chars_of(id.object_name().as_str()));
        string_of(&p)
    }

    /// Marker written once the package of `id` is completely extracted.
    pub fn ready_marker(&self, id: &ArtifactId) -> (r: String)
        ensures
            r@ == path_push(shard_dir_spec(self.spec_root(), id@), id@.skip(2) + ".ready"@),
    {
        let mut name = chars_of(id.object_name().as_str());
        extend_str(&mut name, ".ready");
        let mut p = chars_of(self.shard_dir(id).as_str());
        push_path(&mut p, &name);
        string_of(&p)
    }

    /// Private extraction directory of process `pid` for `id`; hidden, so it
    /// is never taken for a complete package.
    pub fn temp_dir(&self, id: &ArtifactId, pid: u32) -> (r: String)
        ensures
            r@ == path_push(
                shard_dir_spec(self.spec_root(), id@),
                ".tmp-"@ + id@.skip(2) + "-"@ + decimal(pid as nat),
            ),
    {
        let mut name = chars_of(".tmp-");
        extend_str(&mut name, id.object_name().as_str());
        extend_str(&mut name, "-");
        extend_str(&mut name, decimal_string(pid as u64).as_str());
        let mut p = chars_of(self.shard_dir(id).as_str());
        push_path(&mut p, &name);
        string_of(&p)
    }
}

} // verus!
