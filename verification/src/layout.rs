//! `node_modules` layout: package keys, bin directories and link targets.
use vstd::prelude::*;
use crate::text::{
    chars_of, extend_chars, extend_str, has_sub, own, rfind, rfind_chars, slice, string_of,
    trim_start_matches, trim_start_matches_chars, contains_chars, lemma_rfind, occurs_at,
};

verus! {

pub open spec fn nm() -> Seq<char> {
    "node_modules/"@
}

pub open spec fn bin_dir_suffix() -> Seq<char> {
    "node_modules/.bin"@
}

/// Directory holding the `.bin` links visible to the package at `key`.
pub open spec fn nearest_bin_dir_spec(key: Seq<char>) -> Seq<char> {
    let i = rfind(key, nm());
    if i <= 0 {
        bin_dir_suffix()
    } else {
        key.take(i) + bin_dir_suffix()
    }
}

/// `node_modules/.bin` directory nearest to the package at `package_key`:
/// the one beside the last `node_modules/` segment of the key.
pub fn nearest_bin_dir(package_key: &str) -> (r: String)
    ensures
        r@ == nearest_bin_dir_spec(package_key@),
{
    let k = chars_of(package_key);
    let n = chars_of("node_modules/");
    proof {
        lemma_rfind(k@, n@);
    }
    match rfind_chars(&k, &n) {
        None => own("node_modules/.bin"),
        Some(i) => {
            assert(occurs_at(k@, n@, i as int));
            if i == 0 {
                own("node_modules/.bin")
            } else {
                let mut out = slice(&k, 0, i);
                extend_str(&mut out, "node_modules/.bin");
                string_of(&out)
            }
        },
    }
}

/// Install name of the package at `key` (the part after the last `node_modules/`).
pub open spec fn package_name_in_node_modules_spec(key: Seq<char>) -> Seq<char> {
    let i = rfind(key, nm());
    if i == -1 {
        key
    } else {
        key.skip(i + nm().len())
    }
}

/// Install name of the package at `package_key`: the text after the last
/// `node_modules/`, or the whole key when there is none.
pub fn package_name_in_node_modules(package_key: &str) -> (r: String)
    ensures
        r@ == package_name_in_node_modules_spec(package_key@),
{
    let k = chars_of(package_key);
    let n = chars_of("node_modules/");
    proof {
        lemma_rfind(k@, n@);
    }
    match rfind_chars(&k, &n) {
        None => own(package_key),
        Some(i) => {
            assert(occurs_at(k@, n@, i as int));
            let nl = n.len();
            assert(i + nl <= k.len());
            let out = slice(&k, i + nl, k.len());
            assert(out@ =~= k@.skip(i + n@.len()));
            string_of(&out)
        },
    }
}

/// A link or file source with its `file:` / `link:` / `./` prefixes removed.
pub open spec fn strip_file_or_link_prefix_spec(raw: Seq<char>) -> Seq<char> {
    trim_start_matches(
        trim_start_matches(trim_start_matches(raw, "file:"@), "link:"@),
        "./"@,
    )
}

/// Strip repeated `file:`, then `link:`, then `./` prefixes.
pub fn strip_file_or_link_prefix(raw: &str) -> (r: String)
    ensures
        r@ == strip_file_or_link_prefix_spec(raw@),
{
    let a = chars_of(raw);
    let f = chars_of("file:");
    let l = chars_of("link:");
    let d = chars_of("./");
    let b = trim_start_matches_chars(&a, &f);
    let c = trim_start_matches_chars(&b, &l);
    let e = trim_start_matches_chars(&c, &d);
    string_of(&e)
}

/// Package name implied by a lockfile key: the text after the last
/// `node_modules/`; none for the root key, keys without `node_modules/`, or an
/// empty remainder.
pub open spec fn infer_name_from_key_spec(key: Seq<char>) -> Option<Seq<char>> {
    if key.len() == 0 {
        None
    } else {
        let i = rfind(key, nm());
        if i == -1 {
            None
        } else {
            let name = key.skip(i + nm().len());
            if name.len() == 0 {
                None
            } else {
                Some(name)
            }
        }
    }
}

/// Package name implied by a lockfile key.
pub fn infer_name_from_key(key: &str) -> (r: Option<String>)
    ensures
        match (r, infer_name_from_key_spec(key@)) {
            (Some(a), Some(b)) => a@ == b,
            (None, None) => true,
            _ => false,
        },
{
    let k = chars_of(key);
    if k.len() == 0 {
        return None;
    }
    let n = chars_of("node_modules/");
    proof {
        lemma_rfind(k@, n@);
    }
    match rfind_chars(&k, &n) {
        None => None,
        Some(i) => {
            assert(occurs_at(k@, n@, i as int));
            let nl = n.len();
            assert(i + nl <= k.len());
            let out = slice(&k, i + nl, k.len());
            assert(out@ =~= k@.skip(i + n@.len()));
            if out.len() == 0 {
                None
            } else {
                Some(string_of(&out))
            }
        },
    }
}

/// A non-root key that does not lie under any `node_modules/` (a workspace member).
pub open spec fn is_workspace_path_spec(key: Seq<char>) -> bool {
    key.len() > 0 && !has_sub(key, nm())
}

/// Whether `key` names a workspace member directory.
pub fn is_workspace_path(key: &str) -> (r: bool)
    ensures
        r == is_workspace_path_spec(key@),
{
    let k = chars_of(key);
    let n = chars_of("node_modules/");
    k.len() > 0 && !contains_chars(&k, &n)
}

/// The last `/`-separated part of a package name (`@scope/tool` gives `tool`).
pub open spec fn last_name_part(name: Seq<char>) -> Seq<char> {
    let i = rfind(name, seq!['/']);
    if i == -1 {
        name
    } else {
        name.skip(i + 1)
    }
}

/// The last `/`-separated part of `name`.
pub fn bin_name_for(name: &str) -> (r: String)
    ensures
        r@ == last_name_part(name@),
{
    let k = chars_of(name);
    let s = vec!['/'];
    assert(s@ =~= seq!['/']);
    proof {
        lemma_rfind(k@, s@);
    }
    match rfind_chars(&k, &s) {
        None => own(name),
        Some(i) => {
            assert(occurs_at(k@, s@, i as int));
            assert(i + s@.len() <= k@.len());
            assert(s@.len() == 1);
            assert(i + 1 <= k.len());
            let out = slice(&k, i + 1, k.len());
            assert(out@ =~= k@.skip(i + 1));
            string_of(&out)
        },
    }
}

} // verus!
