//! The global project registry that lets shared-store garbage collection
//! find every project's roots: registration keys, the Weave home a store
//! belongs to, and the artifact roots of a project's environments.
use vstd::prelude::*;
use crate::artifact::{hex_encode, hex_of, sha256, sha256_digest};
use crate::environment::EnvironmentRecord;
use crate::error::Error;
use crate::paths::{comp_eq, comp_text_of, components, path_components, push_all, push_path, Comp, PathComp};
use crate::text::{chars_of, eq_chars, own, string_of};
use crate::textmap::TextMap;

verus! {

/// One registered project that may hold environment roots for a store.
#[derive(Debug)]
pub struct ProjectRegistration {
    /// Absolute project root.
    pub root: String,
    /// Absolute store object path the project uses.
    pub store_path: String,
}

/// The name a project's registration is filed under: the first 16 bytes of
/// the SHA-256 of its root path, in hex.
pub fn registration_key(root: &str) -> (r: String)
    ensures
        r@ == hex_of(sha256(vstd::utf8::encode_utf8(root@)).take(16)),
{
    let d = sha256_digest(root.as_bytes());
    let mut head: Vec<u8> = Vec::new();
    let mut i: usize = 0;
    while i < 16
        invariant
            i <= 16,
            d@.len() == 32,
            head@ == d@.take(i as int),
        decreases 16 - i,
    {
        head.push(d[i]);
        i += 1;
        assert(head@ =~= d@.take(i as int));
    }
    hex_encode(head.as_slice())
}

/// The text of the first `n` components of `cs`.
pub open spec fn comps_path(cs: Seq<Comp>, n: int) -> Seq<char> {
    push_all(Seq::empty(), cs.take(n))
}

/// `Path::starts_with`: the components of `base` begin those of `p`.
pub open spec fn path_starts_with(p: Seq<char>, base: Seq<char>) -> bool {
    components(base).len() <= components(p).len() && components(p).take(components(base).len() as int)
        == components(base)
}

fn starts_with_comps(p: &Vec<PathComp>, base: &Vec<PathComp>) -> (r: bool)
    ensures
        r == (base@.len() <= p@.len() && p@.map_values(|c: PathComp| c@).take(base@.len() as int)
            == base@.map_values(|c: PathComp| c@)),
{
    let ghost pv = p@.map_values(|c: PathComp| c@);
    let ghost bv = base@.map_values(|c: PathComp| c@);
    if base.len() > p.len() {
        return false;
    }
    let mut i: usize = 0;
    while i < base.len()
        invariant
            i <= base@.len() <= p@.len(),
            pv == p@.map_values(|c: PathComp| c@),
            bv == base@.map_values(|c: PathComp| c@),
            forall|j: int| 0 <= j < i ==> pv[j] == bv[j],
        decreases base@.len() - i,
    {
        if !comp_eq(&p[i], &base[i]) {
            assert(pv.take(bv.len() as int)[i as int] != bv[i as int]);
            return false;
        }
        i += 1;
    }
    assert(pv.take(bv.len() as int) =~= bv);
    true
}

fn render(cs: &Vec<PathComp>, n: usize) -> (r: String)
    requires
        n <= cs@.len(),
    ensures
        r@ == comps_path(cs@.map_values(|c: PathComp| c@), n as int),
{
    let ghost v = cs@.map_values(|c: PathComp| c@);
    let mut out: Vec<char> = Vec::new();
    let mut i: usize = 0;
    assert(v.take(0) =~= Seq::<Comp>::empty());
    while i < n
        invariant
            i <= n <= cs@.len(),
            v == cs@.map_values(|c: PathComp| c@),
            out@ == push_all(Seq::empty(), v.take(i as int)),
        decreases n - i,
    {
        let t = comp_text_of(&cs[i]);
        push_path(&mut out, &t);
        assert(v.take(i + 1).drop_last() =~= v.take(i as int));
        assert(v.take(i + 1).last() == cs@[i as int]@);
        i += 1;
    }
    string_of(&out)
}

/// The Weave home a store rooted at `store_root` belongs to. With a known
/// default home: that home when the store is its `store/objects` (as the
/// caller found after resolving both paths) or lies under it. Otherwise the
/// directory above `…/store/objects`, else the store's parent.
pub open spec fn home_for_store(home: Option<Seq<char>>, is_home_store: bool, store_root: Seq<char>) -> Result<Seq<char>, Seq<char>> {
    let cs = components(store_root);
    let n = cs.len();
    if home matches Some(h) && (is_home_store || path_starts_with(store_root, h)) {
        Ok(home->0)
    } else if n >= 2 && !(cs[n - 1] is Root) && cs[n - 1] == Comp::Normal("objects"@) && cs[n - 2] == Comp::Normal(
        "store"@,
    ) {
        Ok(comps_path(cs, n - 2))
    } else if n == 0 || cs[n - 1] is Root {
        Err("cannot resolve weave home for store"@)
    } else {
        Ok(comps_path(cs, n - 1))
    }
}

/// Resolve the Weave home of the store at `store_root` (see `home_for_store`).
pub fn weave_home_for_store(home: Option<&str>, is_home_store: bool, store_root: &str) -> (r: Result<String, Error>)
    ensures
        match (r, home_for_store(
            match home {
                Some(h) => Some(h@),
                None => None,
            },
            is_home_store,
            store_root@,
        )) {
            (Ok(a), Ok(b)) => a@ == b,
            (Err(e), Err(m)) => e matches Error::InvalidState { path, reason } && path@ == store_root@
                && reason@ == m,
            _ => false,
        },
{
    let cs = path_components(&chars_of(store_root));
    let ghost v = cs@.map_values(|c: PathComp| c@);
    if let Some(h) = home {
        let hs = path_components(&chars_of(h));
        if is_home_store || starts_with_comps(&cs, &hs) {
            return Ok(own(h));
        }
    }
    let n = cs.len();
    proof {
        reveal_strlit("objects");
        reveal_strlit("store");
    }
    if n >= 2 {
        let last_is_objects = match &cs[n - 1] {
            PathComp::Normal(x) => eq_chars(x, &chars_of("objects")),
            _ => false,
        };
        let prev_is_store = match &cs[n - 2] {
            PathComp::Normal(x) => eq_chars(x, &chars_of("store")),
            _ => false,
        };
        if last_is_objects && prev_is_store {
            return Ok(render(&cs, n - 2));
        }
    }
    let at_root = n == 0 || match &cs[n - 1] {
        PathComp::RootDir => true,
        _ => false,
    };
    if at_root {
        return Err(Error::InvalidState { path: own(store_root), reason: own("cannot resolve weave home for store") });
    }
    Ok(render(&cs, n - 1))
}

/// The artifact ids recorded by environments, record by record, each
/// record's ids in key order.
pub open spec fn artifact_ids(envs: Seq<EnvironmentRecord>) -> Seq<Seq<char>>
    decreases envs.len(),
{
    if envs.len() == 0 {
        Seq::empty()
    } else {
        artifact_ids(envs.drop_last()) + envs.last().artifacts.spec_entries().map_values(
            |e: (Seq<char>, Seq<char>)| e.1,
        )
    }
}

/// The artifact ids a project's environments keep alive.
pub fn artifact_roots(envs: &Vec<EnvironmentRecord>) -> (r: Vec<String>)
    ensures
        r.deep_view() == artifact_ids(envs@),
{
    let mut out: Vec<String> = Vec::new();
    let mut i: usize = 0;
    assert(envs@.take(0) =~= Seq::<EnvironmentRecord>::empty());
    assert(out.deep_view() =~= Seq::<Seq<char>>::empty());
    while i < envs.len()
        invariant
            i <= envs@.len(),
            out.deep_view() == artifact_ids(envs@.take(i as int)),
        decreases envs@.len() - i,
    {
        let m: &TextMap<String> = &envs[i].artifacts;
        let ghost vals = m.spec_entries().map_values(|e: (Seq<char>, Seq<char>)| e.1);
        let ghost start = out.deep_view();
        let mut j: usize = 0;
        while j < m.len()
            invariant
                j <= vals.len(),
                vals.len() == m.spec_entries().len(),
                vals == m.spec_entries().map_values(|e: (Seq<char>, Seq<char>)| e.1),
                out.deep_view() == start + vals.take(j as int),
            decreases vals.len() - j,
        {
            let v = m.value_at(j);
            let ghost before = out.deep_view();
            out.push(own(v.as_str()));
            assert(vals.take(j + 1) =~= vals.take(j as int).push(vals[j as int]));
            assert(out.deep_view() =~= before.push(v@));
            j += 1;
        }
        assert(vals.take(vals.len() as int) =~= vals);
        assert(envs@.take(i + 1).drop_last() =~= envs@.take(i as int));
        i += 1;
    }
    assert(envs@.take(envs@.len() as int) =~= envs@);
    out
}

} // verus!
