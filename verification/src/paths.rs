//! Relative path handling with Unix component semantics.
//!
//! A path is a character sequence; its components follow `std::path` on
//! Unix: a leading `/` is the root, a leading `.` segment is the current
//! directory, empty and later `.` segments vanish, and `..` is the parent.
use vstd::prelude::*;
use crate::text::{
    chars_of, concat, eq_chars, extend_chars, has_char_chars, own, replace_all,
    replace_char, slice, string_of, trim_start_matches, trim_start_matches_chars,
};
use crate::error::Error;

verus! {

/// One path component (specification level).
pub enum Comp {
    Root,
    Cur,
    Parent,
    Normal(Seq<char>),
}

/// One path component.
pub enum PathComp {
    RootDir,
    CurDir,
    ParentDir,
    Normal(Vec<char>),
}

impl View for PathComp {
    type V = Comp;

    open spec fn view(&self) -> Comp {
        match self {
            PathComp::RootDir => Comp::Root,
            PathComp::CurDir => Comp::Cur,
            PathComp::ParentDir => Comp::Parent,
            PathComp::Normal(v) => Comp::Normal(v@),
        }
    }
}

/// The `/`-separated segments of `s` (as `str::split('/')`).
pub open spec fn segs(s: Seq<char>) -> Seq<Seq<char>>
    decreases s.len(),
{
    if s.len() == 0 {
        seq![Seq::<char>::empty()]
    } else if s.last() == '/' {
        segs(s.drop_last()).push(Seq::<char>::empty())
    } else {
        let t = segs(s.drop_last());
        t.update(t.len() - 1, t.last().push(s.last()))
    }
}

pub open spec fn dot() -> Seq<char> {
    seq!['.']
}

pub open spec fn dotdot() -> Seq<char> {
    seq!['.', '.']
}

/// The component a segment contributes (empty and `.` segments contribute none).
pub open spec fn seg_comp(seg: Seq<char>) -> Seq<Comp> {
    if seg.len() == 0 || seg == dot() {
        Seq::empty()
    } else if seg == dotdot() {
        seq![Comp::Parent]
    } else {
        seq![Comp::Normal(seg)]
    }
}

/// Components contributed by a list of segments.
pub open spec fn seg_comps(ss: Seq<Seq<char>>) -> Seq<Comp>
    decreases ss.len(),
{
    if ss.len() == 0 {
        Seq::empty()
    } else {
        seg_comps(ss.drop_last()) + seg_comp(ss.last())
    }
}

/// The path starts at the file-system root.
pub open spec fn is_absolute(s: Seq<char>) -> bool {
    s.len() > 0 && s[0] == '/'
}

/// The path starts with a `.` segment.
pub open spec fn leads_with_cur(s: Seq<char>) -> bool {
    !is_absolute(s) && s.len() > 0 && s[0] == '.' && (s.len() == 1 || s[1] == '/')
}

/// Unix path components of `s`.
pub open spec fn components(s: Seq<char>) -> Seq<Comp> {
    (if is_absolute(s) {
        seq![Comp::Root]
    } else if leads_with_cur(s) {
        seq![Comp::Cur]
    } else {
        Seq::empty()
    }) + seg_comps(segs(s))
}

/// Some component of `s` is the root or a parent reference.
pub open spec fn escapes(s: Seq<char>) -> bool {
    exists|k: int|
        0 <= k < components(s).len() && (components(s)[k] is Root || components(s)[k] is Parent)
}

/// `PathBuf::push` of the text `t` onto `buf` (Unix).
pub open spec fn path_push(buf: Seq<char>, t: Seq<char>) -> Seq<char> {
    if is_absolute(t) {
        t
    } else if buf.len() == 0 || buf.last() == '/' {
        buf + t
    } else {
        buf + seq!['/'] + t
    }
}

/// Text of a component.
pub open spec fn comp_text(c: Comp) -> Seq<char> {
    match c {
        Comp::Root => seq!['/'],
        Comp::Cur => dot(),
        Comp::Parent => dotdot(),
        Comp::Normal(s) => s,
    }
}

/// `base` with the normal components of `cs` pushed in order.
pub open spec fn push_normals(base: Seq<char>, cs: Seq<Comp>) -> Seq<char>
    decreases cs.len(),
{
    if cs.len() == 0 {
        base
    } else {
        let b = push_normals(base, cs.drop_last());
        match cs.last() {
            Comp::Normal(s) => path_push(b, s),
            _ => b,
        }
    }
}

/// `base` with the text of every component of `cs` pushed in order.
pub open spec fn push_all(base: Seq<char>, cs: Seq<Comp>) -> Seq<char>
    decreases cs.len(),
{
    if cs.len() == 0 {
        base
    } else {
        path_push(push_all(base, cs.drop_last()), comp_text(cs.last()))
    }
}

/// There is always at least one segment.
pub proof fn lemma_segs_nonempty(s: Seq<char>)
    ensures
        segs(s).len() >= 1,
    decreases s.len(),
{
    if s.len() > 0 {
        lemma_segs_nonempty(s.drop_last());
    }
}

// ---------------------------------------------------------------------------

fn seg_component(seg: &Vec<char>) -> (r: Option<PathComp>)
    ensures
        match r {
            None => seg_comp(seg@).len() == 0,
            Some(c) => seg_comp(seg@) == seq![c@],
        },
{
    let d = vec!['.'];
    let dd = vec!['.', '.'];
    assert(d@ =~= dot());
    assert(dd@ =~= dotdot());
    if seg.len() == 0 || eq_chars(seg, &d) {
        assert(seg@.len() == 0 || seg@ == dot());
        assert(seg_comp(seg@) =~= Seq::<Comp>::empty());
        None
    } else if eq_chars(seg, &dd) {
        Some(PathComp::ParentDir)
    } else {
        let v = slice(seg, 0, seg.len());
        assert(v@ =~= seg@);
        Some(PathComp::Normal(v))
    }
}

/// The Unix path components of `s`.
pub fn path_components(s: &Vec<char>) -> (r: Vec<PathComp>)
    ensures
        r@.map_values(|c: PathComp| c@) == components(s@),
{
    let mut out: Vec<PathComp> = Vec::new();
    let abs = s.len() > 0 && s[0] == '/';
    let cur = !abs && s.len() > 0 && s[0] == '.' && (s.len() == 1 || s[1] == '/');
    if abs {
        out.push(PathComp::RootDir);
    } else if cur {
        out.push(PathComp::CurDir);
    }
    let ghost lead = out@.map_values(|c: PathComp| c@);
    assert(lead =~= (if is_absolute(s@) {
        seq![Comp::Root]
    } else if leads_with_cur(s@) {
        seq![Comp::Cur]
    } else {
        Seq::<Comp>::empty()
    }));
    let mut seg: Vec<char> = Vec::new();
    let mut i: usize = 0;
    assert(s@.take(0) =~= Seq::<char>::empty());
    while i < s.len()
        invariant
            i <= s.len(),
            out@.map_values(|c: PathComp| c@) == lead + seg_comps(segs(s@.take(i as int)).drop_last()),
            seg@ == segs(s@.take(i as int)).last(),
        decreases s.len() - i,
    {
        let ghost pre = s@.take(i as int);
        proof {
            lemma_segs_nonempty(pre);
        }
        let c = s[i];
        assert(s@.take(i + 1).drop_last() =~= pre);
        assert(s@.take(i + 1).last() == c);
        if c == '/' {
            let ghost old_out = out@.map_values(|c: PathComp| c@);
            match seg_component(&seg) {
                Some(pc) => out.push(pc),
                None => {},
            }
            assert(segs(pre).drop_last().push(segs(pre).last()) =~= segs(pre));
            assert(segs(s@.take(i + 1)).drop_last() =~= segs(pre));
            assert(out@.map_values(|c: PathComp| c@) =~= old_out + seg_comp(seg@));
            seg = Vec::new();
        } else {
            seg.push(c);
            let ghost t = segs(pre);
            assert(segs(s@.take(i + 1)).drop_last() =~= t.drop_last());
        }
        i += 1;
    }
    assert(s@.take(s.len() as int) =~= s@);
    let ghost all = segs(s@);
    proof {
        lemma_segs_nonempty(s@);
    }
    assert(all.drop_last().push(all.last()) =~= all);
    let ghost old_out = out@.map_values(|c: PathComp| c@);
    match seg_component(&seg) {
        Some(pc) => out.push(pc),
        None => {},
    }
    assert(out@.map_values(|c: PathComp| c@) =~= old_out + seg_comp(seg@));
    assert(out@.map_values(|c: PathComp| c@) =~= components(s@));
    out
}

/// Whether some component of `s` is the root or a parent reference.
pub fn escapes_chars(s: &Vec<char>) -> (r: bool)
    ensures
        r == escapes(s@),
{
    let cs = path_components(s);
    let ghost v = cs@.map_values(|c: PathComp| c@);
    let mut k: usize = 0;
    while k < cs.len()
        invariant
            k <= cs.len(),
            v == cs@.map_values(|c: PathComp| c@),
            v == components(s@),
            forall|j: int| 0 <= j < k ==> !(v[j] is Root || v[j] is Parent),
        decreases cs.len() - k,
    {
        match &cs[k] {
            PathComp::RootDir => {
                assert(v[k as int] is Root);
                return true;
            },
            PathComp::ParentDir => {
                assert(v[k as int] is Parent);
                return true;
            },
            _ => {},
        }
        k += 1;
    }
    false
}

/// `PathBuf::push` of `t` onto `buf`.
pub fn push_path(buf: &mut Vec<char>, t: &Vec<char>)
    ensures
        final(buf)@ == path_push(old(buf)@, t@),
{
    if t.len() > 0 && t[0] == '/' {
        *buf = slice(t, 0, t.len());
    } else if buf.len() == 0 || buf[buf.len() - 1] == '/' {
        extend_chars(buf, t);
    } else {
        buf.push('/');
        extend_chars(buf, t);
    }
}

/// Push the normal components of `cs` onto `base`.
pub fn push_normal_comps(base: &Vec<char>, cs: &Vec<PathComp>) -> (r: Vec<char>)
    ensures
        r@ == push_normals(base@, cs@.map_values(|c: PathComp| c@)),
{
    let ghost v = cs@.map_values(|c: PathComp| c@);
    let mut out = slice(base, 0, base.len());
    let mut k: usize = 0;
    assert(v.take(0) =~= Seq::<Comp>::empty());
    while k < cs.len()
        invariant
            k <= cs.len(),
            v == cs@.map_values(|c: PathComp| c@),
            out@ == push_normals(base@, v.take(k as int)),
        decreases cs.len() - k,
    {
        assert(v.take(k + 1).drop_last() =~= v.take(k as int));
        match &cs[k] {
            PathComp::Normal(s) => {
                push_path(&mut out, s);
            },
            _ => {},
        }
        k += 1;
    }
    assert(v.take(cs.len() as int) =~= v);
    out
}

/// Text of one component.
pub fn comp_text_of(c: &PathComp) -> (r: Vec<char>)
    ensures
        r@ == comp_text(c@),
{
    match c {
        PathComp::RootDir => vec!['/'],
        PathComp::CurDir => {
            let r = vec!['.'];
            assert(r@ =~= dot());
            r
        },
        PathComp::ParentDir => {
            let r = vec!['.', '.'];
            assert(r@ =~= dotdot());
            r
        },
        PathComp::Normal(s) => slice(s, 0, s.len()),
    }
}

// ---------------------------------------------------------------------------
// Safety checks on relative paths
// ---------------------------------------------------------------------------

/// Why a declared output path is refused, if it is.
pub open spec fn declared_output_problem(rel: Seq<char>) -> Option<Seq<char>> {
    if is_absolute(rel) {
        Some("absolute declared output paths are not allowed"@)
    } else if escapes(rel) {
        Some("path traversal rejected in declared output"@)
    } else if rel.len() == 0 {
        Some("empty declared output path"@)
    } else {
        None
    }
}

/// Validate a declared relative output path: no root, no parent reference, not
/// empty. Returns the path with `\` replaced by `/`.
pub fn validate_declared_output(rel: &str) -> (r: Result<String, Error>)
    ensures
        match r {
            Ok(p) => !escapes(rel@) && rel@.len() > 0 && p@ == replace_all(
                rel@,
                seq!['\\'],
                seq!['/'],
            ),
            Err(e) => (escapes(rel@) || rel@.len() == 0) && e is MaterializationFailed && e.reason_of()
                == (if is_absolute(rel@) {
                "absolute declared output paths are not allowed"@
            } else if escapes(rel@) {
                "path traversal rejected in declared output"@
            } else {
                "empty declared output path"@
            }),
        },
        r is Ok <==> declared_output_problem(rel@).is_none(),
        r matches Err(e) ==> Some(e.reason_of()) == declared_output_problem(rel@),
{
    let rc = chars_of(rel);
    if rc.len() > 0 && rc[0] == '/' {
        proof {
            assert(components(rel@)[0] is Root);
        }
        return Err(
            Error::MaterializationFailed {
                path: own(rel),
                reason: own("absolute declared output paths are not allowed"),
            },
        );
    }
    if escapes_chars(&rc) {
        return Err(
            Error::MaterializationFailed {
                path: own(rel),
                reason: own("path traversal rejected in declared output"),
            },
        );
    }
    if rc.len() == 0 {
        return Err(
            Error::MaterializationFailed {
                path: own(rel),
                reason: own("empty declared output path"),
            },
        );
    }
    let out = replace_char(&rc, '\\', '/');
    Ok(string_of(&out))
}

/// Validate a package bin script path (relative, no traversal); `\` becomes `/`.
pub fn sanitize_bin_rel(rel: &str) -> (r: Result<String, Error>)
    ensures
        match r {
            Ok(p) => !escapes(rel@) && p@ == replace_all(rel@, seq!['\\'], seq!['/']),
            Err(e) => escapes(rel@) && e is MaterializationFailed && e.reason_of() == (if is_absolute(
                rel@,
            ) {
                "absolute bin paths are not allowed"@
            } else {
                "bin path traversal rejected"@
            }),
        },
{
    let rc = chars_of(rel);
    if rc.len() > 0 && rc[0] == '/' {
        proof {
            assert(components(rel@)[0] is Root);
        }
        return Err(
            Error::MaterializationFailed {
                path: own(rel),
                reason: own("absolute bin paths are not allowed"),
            },
        );
    }
    if escapes_chars(&rc) {
        return Err(
            Error::MaterializationFailed {
                path: own(rel),
                reason: own("bin path traversal rejected"),
            },
        );
    }
    let out = replace_char(&rc, '\\', '/');
    Ok(string_of(&out))
}

/// A bin name is usable as a single file name.
pub open spec fn valid_bin_name(n: Seq<char>) -> bool {
    n.len() > 0 && !n.contains('/') && !n.contains('\\') && !n.contains('\0') && n != dot() && n
        != dotdot()
}

/// Validate a bin link name (single non-special file name).
pub fn sanitize_bin_name(name: &str) -> (r: Result<String, Error>)
    ensures
        match r {
            Ok(n) => valid_bin_name(name@) && n@ == name@,
            Err(e) => !valid_bin_name(name@) && e is MaterializationFailed && e.reason_of()
                == "invalid bin name"@,
        },
{
    let nc = chars_of(name);
    let d = vec!['.'];
    let dd = vec!['.', '.'];
    assert(d@ =~= dot());
    assert(dd@ =~= dotdot());
    if nc.len() == 0 || has_char_chars(&nc, '/') || has_char_chars(&nc, '\\') || has_char_chars(
        &nc,
        '\0',
    ) || eq_chars(&nc, &d) || eq_chars(&nc, &dd) {
        return Err(
            Error::MaterializationFailed { path: own(name), reason: own("invalid bin name") },
        );
    }
    Ok(own(name))
}

/// Validate a workspace link target: strip leading `./`, then require a
/// relative path without parent references; `\` becomes `/`.
pub fn sanitize_workspace_target(target: &str) -> (r: Result<String, Error>)
    ensures
        ({
            let t = trim_start_matches(target@, "./"@);
            match r {
                Ok(p) => !escapes(t) && p@ == replace_all(t, seq!['\\'], seq!['/']),
                Err(e) => escapes(t) && e is MaterializationFailed && e.reason_of() == (if is_absolute(
                    t,
                ) {
                    "absolute workspace link targets are not allowed"@
                } else {
                    "workspace link target escapes project root"@
                }),
            }
        }),
{
    let tc = chars_of(target);
    let pre = chars_of("./");
    let t = trim_start_matches_chars(&tc, &pre);
    if t.len() > 0 && t[0] == '/' {
        proof {
            assert(components(t@)[0] is Root);
        }
        return Err(
            Error::MaterializationFailed {
                path: string_of(&t),
                reason: own("absolute workspace link targets are not allowed"),
            },
        );
    }
    if escapes_chars(&t) {
        return Err(
            Error::MaterializationFailed {
                path: string_of(&t),
                reason: own("workspace link target escapes project root"),
            },
        );
    }
    let out = replace_char(&t, '\\', '/');
    Ok(string_of(&out))
}

/// A symlink target found in a package archive must stay inside the package.
pub fn validate_symlink_target(target: &str) -> (r: Result<(), Error>)
    ensures
        match r {
            Ok(()) => !escapes(target@),
            Err(e) => escapes(target@) && e is MaterializationFailed && e.reason_of() == (if is_absolute(
                target@,
            ) {
                "absolute symlink targets are not allowed"@
            } else {
                "symlink target escapes package root"@
            }),
        },
{
    let tc = chars_of(target);
    if tc.len() > 0 && tc[0] == '/' {
        proof {
            assert(components(target@)[0] is Root);
        }
        return Err(
            Error::MaterializationFailed {
                path: own(target),
                reason: own("absolute symlink targets are not allowed"),
            },
        );
    }
    if escapes_chars(&tc) {
        return Err(
            Error::MaterializationFailed {
                path: own(target),
                reason: own("symlink target escapes package root"),
            },
        );
    }
    Ok(())
}

/// Join a relative path onto `base`, refusing roots and parent references.
/// Current-directory components are dropped.
pub fn safe_join(base: &str, relative: &str) -> (r: Result<String, Error>)
    ensures
        match r {
            Ok(p) => !escapes(relative@) && p@ == push_normals(base@, components(relative@)),
            Err(e) => escapes(relative@) && e is MaterializationFailed && e.reason_of()
                == "path traversal rejected while extracting to "@ + base@,
        },
{
    let rc = chars_of(relative);
    if escapes_chars(&rc) {
        return Err(
            Error::MaterializationFailed {
                path: own(relative),
                reason: concat("path traversal rejected while extracting to ", base),
            },
        );
    }
    let bc = chars_of(base);
    let cs = path_components(&rc);
    let out = push_normal_comps(&bc, &cs);
    Ok(string_of(&out))
}

} // verus!

verus! {

// ---------------------------------------------------------------------------
// Path arithmetic
// ---------------------------------------------------------------------------

/// Components of `Path::parent` (no parent means no components).
pub open spec fn parent_comps(c: Seq<Comp>) -> Seq<Comp> {
    if c.len() == 0 || c.last() is Root {
        Seq::empty()
    } else {
        c.drop_last()
    }
}

/// Length of the longest common prefix of `a` and `b`, counting from `i`.
pub open spec fn common_prefix_from(a: Seq<Comp>, b: Seq<Comp>, i: int) -> int
    decreases a.len() - i,
{
    if 0 <= i && i < a.len() && i < b.len() && a[i] == b[i] {
        common_prefix_from(a, b, i + 1)
    } else {
        i
    }
}

/// `n` parent components.
pub open spec fn parents(n: nat) -> Seq<Comp> {
    Seq::new(n, |i: int| Comp::Parent)
}

/// Relative path from the directory holding `from_key` to `to`.
pub open spec fn relative_path_spec(from_key: Seq<char>, to: Seq<char>) -> Seq<char> {
    let f = parent_comps(components(from_key));
    let t = components(to);
    let i = common_prefix_from(f, t, 0);
    let out = push_all(push_all(Seq::empty(), parents((f.len() - i) as nat)), t.skip(i));
    if out.len() == 0 {
        dot()
    } else {
        out
    }
}

proof fn lemma_common_prefix_bounds(a: Seq<Comp>, b: Seq<Comp>, i: int)
    requires
        0 <= i <= a.len(),
        i <= b.len(),
    ensures
        i <= common_prefix_from(a, b, i) <= a.len(),
        common_prefix_from(a, b, i) <= b.len(),
    decreases a.len() - i,
{
    if i < a.len() && i < b.len() && a[i] == b[i] {
        lemma_common_prefix_bounds(a, b, i + 1);
    }
}

pub fn comp_eq(a: &PathComp, b: &PathComp) -> (r: bool)
    ensures
        r == (a@ == b@),
{
    match (a, b) {
        (PathComp::RootDir, PathComp::RootDir) => true,
        (PathComp::CurDir, PathComp::CurDir) => true,
        (PathComp::ParentDir, PathComp::ParentDir) => true,
        (PathComp::Normal(x), PathComp::Normal(y)) => eq_chars(x, y),
        _ => false,
    }
}

/// Relative path from the directory holding `from_key` (e.g. `node_modules/@a/b`)
/// to `to` (e.g. `packages/b`), as a symlink placed at `from_key` would need.
pub fn relative_path(from_key: &str, to: &str) -> (r: String)
    ensures
        r@ == relative_path_spec(from_key@, to@),
{
    let fc = chars_of(from_key);
    let tc = chars_of(to);
    let all_from = path_components(&fc);
    let t = path_components(&tc);
    let ghost fv = all_from@.map_values(|c: PathComp| c@);
    let ghost tv = t@.map_values(|c: PathComp| c@);
    // parent of from_key
    let n_parent: usize = if all_from.len() == 0 {
        0
    } else {
        match &all_from[all_from.len() - 1] {
            PathComp::RootDir => 0,
            _ => all_from.len() - 1,
        }
    };
    let ghost f = parent_comps(fv);
    assert(f =~= fv.take(n_parent as int));
    let mut i: usize = 0;
    while i < n_parent && i < t.len() && comp_eq(&all_from[i], &t[i])
        invariant
            n_parent <= all_from.len(),
            i <= n_parent,
            i <= t.len(),
            fv == all_from@.map_values(|c: PathComp| c@),
            tv == t@.map_values(|c: PathComp| c@),
            f == fv.take(n_parent as int),
            common_prefix_from(f, tv, 0) == common_prefix_from(f, tv, i as int),
        decreases n_parent - i,
    {
        i += 1;
    }
    assert(common_prefix_from(f, tv, i as int) == i);
    let mut out: Vec<char> = Vec::new();
    let mut k: usize = i;
    let dd = vec!['.', '.'];
    assert(dd@ =~= dotdot());
    assert(parents(0) =~= Seq::<Comp>::empty());
    while k < n_parent
        invariant
            i <= k <= n_parent,
            dd@ == dotdot(),
            out@ == push_all(Seq::empty(), parents((k - i) as nat)),
        decreases n_parent - k,
    {
        assert(parents((k + 1 - i) as nat).drop_last() =~= parents((k - i) as nat));
        push_path(&mut out, &dd);
        k += 1;
    }
    let ghost base = out@;
    let mut j: usize = i;
    assert(tv.skip(i as int).take(0) =~= Seq::<Comp>::empty());
    while j < t.len()
        invariant
            i <= j <= t.len(),
            tv == t@.map_values(|c: PathComp| c@),
            out@ == push_all(base, tv.skip(i as int).take(j - i)),
        decreases t.len() - j,
    {
        assert(tv.skip(i as int).take(j + 1 - i).drop_last() =~= tv.skip(i as int).take(j - i));
        let txt = comp_text_of(&t[j]);
        push_path(&mut out, &txt);
        j += 1;
    }
    assert(tv.skip(i as int).take(t.len() - i) =~= tv.skip(i as int));
    if out.len() == 0 {
        let d = vec!['.'];
        assert(d@ =~= dot());
        return string_of(&d);
    }
    string_of(&out)
}

/// Result of removing the leading `package/` directory of an npm archive path.
pub open spec fn strip_package_prefix_spec(path: Seq<char>) -> Result<Seq<char>, ()> {
    let c = components(path);
    if c.len() == 0 {
        Ok(Seq::empty())
    } else {
        match c[0] {
            Comp::Normal(first) => if first == "package"@ {
                Ok(push_all(Seq::empty(), c.skip(1)))
            } else {
                Ok(path)
            },
            _ => Err(()),
        }
    }
}

/// Remove the `package/` top-level directory that npm archives wrap their files in.
/// Entries whose first component is not a plain name are refused.
pub fn strip_package_prefix(path: &str) -> (r: Result<String, String>)
    ensures
        match (r, strip_package_prefix_spec(path@)) {
            (Ok(p), Ok(q)) => p@ == q,
            (Err(e), Err(())) => e@ == "refusing unsafe tar path component in "@ + path@,
            _ => false,
        },
{
    let pc = chars_of(path);
    let cs = path_components(&pc);
    let ghost cv = cs@.map_values(|c: PathComp| c@);
    if cs.len() == 0 {
        return Ok(String::new());
    }
    let pkg = chars_of("package");
    match &cs[0] {
        PathComp::Normal(first) => {
            if eq_chars(first, &pkg) {
                let mut out: Vec<char> = Vec::new();
                let mut j: usize = 1;
                assert(cv.skip(1).take(0) =~= Seq::<Comp>::empty());
                while j < cs.len()
                    invariant
                        1 <= j <= cs.len(),
                        cv == cs@.map_values(|c: PathComp| c@),
                        out@ == push_all(Seq::empty(), cv.skip(1).take(j - 1)),
                    decreases cs.len() - j,
                {
                    assert(cv.skip(1).take(j as int).drop_last() =~= cv.skip(1).take(j - 1));
                    let txt = comp_text_of(&cs[j]);
                    push_path(&mut out, &txt);
                    j += 1;
                }
                assert(cv.skip(1).take(cs.len() - 1) =~= cv.skip(1));
                Ok(string_of(&out))
            } else {
                Ok(own(path))
            }
        },
        _ => Err(concat("refusing unsafe tar path component in ", path)),
    }
}

// ---------------------------------------------------------------------------
// Relative links resolve to their target
// ---------------------------------------------------------------------------

/// A component name that a path writes as itself: non-empty, no `/`, and
/// neither `.` nor `..`.
pub open spec fn plain_name(s: Seq<char>) -> bool {
    s.len() > 0 && s != dot() && s != dotdot() && forall|i: int| 0 <= i < s.len() ==> s[i] != '/'
}

/// Every component is a plain name.
pub open spec fn plain_comps(cs: Seq<Comp>) -> bool {
    forall|i: int| 0 <= i < cs.len() ==> (#[trigger] cs[i] matches Comp::Normal(n) && plain_name(n))
}

/// Following the components `rel` from the directory `base`: a name goes
/// into it, `..` goes up one level, `.` stays, the root starts over.
pub open spec fn walk(base: Seq<Comp>, rel: Seq<Comp>) -> Seq<Comp>
    decreases rel.len(),
{
    if rel.len() == 0 {
        base
    } else {
        let b = walk(base, rel.drop_last());
        match rel.last() {
            Comp::Parent => if b.len() > 0 {
                b.drop_last()
            } else {
                b
            },
            Comp::Normal(n) => b.push(Comp::Normal(n)),
            Comp::Cur => b,
            Comp::Root => Seq::empty(),
        }
    }
}

/// Text without `/` extends the last segment.
proof fn lemma_segs_extend(x: Seq<char>, t: Seq<char>)
    requires
        forall|i: int| 0 <= i < t.len() ==> t[i] != '/',
    ensures
        segs(x + t).len() == segs(x).len(),
        segs(x + t).drop_last() == segs(x).drop_last(),
        segs(x + t).last() == segs(x).last() + t,
    decreases t.len(),
{
    lemma_segs_nonempty(x);
    if t.len() == 0 {
        assert(x + t =~= x);
        assert(segs(x).last() + t =~= segs(x).last());
    } else {
        let u = t.drop_last();
        lemma_segs_extend(x, u);
        assert((x + t).drop_last() =~= x + u);
        assert((x + t).last() == t.last());
        lemma_segs_nonempty(x + u);
        let sg = segs(x + u);
        assert(segs(x + t) == sg.update(sg.len() - 1, sg.last().push(t.last())));
        assert(segs(x + t).drop_last() =~= sg.drop_last());
        assert(segs(x).last() + t =~= (segs(x).last() + u).push(t.last()));
    }
}

/// Text without `/` is one segment.
proof fn lemma_segs_single(t: Seq<char>)
    requires
        forall|i: int| 0 <= i < t.len() ==> t[i] != '/',
    ensures
        segs(t) == seq![t],
{
    lemma_segs_extend(Seq::empty(), t);
    assert(Seq::<char>::empty() + t =~= t);
    assert(segs(Seq::<char>::empty()) == seq![Seq::<char>::empty()]);
    assert(Seq::<char>::empty() + t =~= t);
    assert(segs(t) =~= seq![t]);
}

/// A `/` then text without `/` adds one segment.
proof fn lemma_segs_join(x: Seq<char>, t: Seq<char>)
    requires
        forall|i: int| 0 <= i < t.len() ==> t[i] != '/',
    ensures
        segs(x + seq!['/'] + t) == segs(x).push(t),
{
    let y = x + seq!['/'];
    assert(y.drop_last() =~= x);
    assert(y.last() == '/');
    assert(segs(y) == segs(x).push(Seq::<char>::empty()));
    lemma_segs_extend(y, t);
    assert(segs(y).last() + t =~= t);
    assert(segs(y).drop_last() =~= segs(x));
    let r = segs(y + t);
    assert forall|i: int| 0 <= i < r.len() implies r[i] == segs(x).push(t)[i] by {
        if i < r.len() - 1 {
            assert(r[i] == r.drop_last()[i]);
        }
    }
    assert(r =~= segs(x).push(t));
}

/// The text of the components of a link.
pub open spec fn comp_texts(cs: Seq<Comp>) -> Seq<Seq<char>> {
    cs.map_values(|c: Comp| comp_text(c))
}

/// Names and parent references only.
pub open spec fn link_comps(cs: Seq<Comp>) -> bool {
    forall|i: int|
        0 <= i < cs.len() ==> (#[trigger] cs[i] is Parent || (cs[i] matches Comp::Normal(n) && plain_name(n)))
}

/// Writing names and parent references as a path and reading it back gives
/// the same components.
proof fn lemma_push_all_reads_back(cs: Seq<Comp>)
    requires
        cs.len() > 0,
        link_comps(cs),
    ensures
        push_all(Seq::empty(), cs).len() > 0,
        push_all(Seq::empty(), cs).last() != '/',
        comp_text(cs[0]).len() <= push_all(Seq::empty(), cs).len(),
        push_all(Seq::empty(), cs).take(comp_text(cs[0]).len() as int) == comp_text(cs[0]),
        segs(push_all(Seq::empty(), cs)) == comp_texts(cs),
        seg_comps(comp_texts(cs)) == cs,
    decreases cs.len(),
{
    let c = cs.last();
    let t = comp_text(c);
    assert(cs[cs.len() - 1] == c);
    assert(t.len() > 0 && t[0] != '/' && forall|i: int| 0 <= i < t.len() ==> t[i] != '/') by {
        if c is Parent {
            assert(t =~= seq!['.', '.']);
        }
    }
    assert(seg_comp(t) == seq![c]) by {
        if c is Parent {
            assert(t == dotdot());
        }
    }
    if cs.len() == 1 {
        assert(cs.drop_last() =~= Seq::<Comp>::empty());
        assert(push_all(Seq::<char>::empty(), cs.drop_last()) == Seq::<char>::empty());
        assert(push_all(Seq::<char>::empty(), cs) == path_push(Seq::<char>::empty(), t));
        assert(Seq::<char>::empty() + t =~= t);
        assert(t.take(t.len() as int) =~= t);
        lemma_segs_single(t);
        assert(comp_texts(cs) =~= seq![t]);
        assert(comp_texts(cs).drop_last() =~= Seq::<Seq<char>>::empty());
        assert(seg_comps(comp_texts(cs).drop_last()) == Seq::<Comp>::empty());
        assert(comp_texts(cs).last() == t);
        assert(seg_comps(comp_texts(cs)) =~= seq![c]);
        assert(cs =~= seq![c]);
    } else {
        let ds = cs.drop_last();
        assert(link_comps(ds)) by {
            assert forall|i: int| 0 <= i < ds.len() implies (#[trigger] ds[i] is Parent || (ds[i] matches Comp::Normal(n)
                && plain_name(n))) by {
                assert(ds[i] == cs[i]);
            }
        }
        lemma_push_all_reads_back(ds);
        let x = push_all(Seq::empty(), ds);
        assert(push_all(Seq::empty(), cs) == path_push(x, t));
        assert(path_push(x, t) == x + seq!['/'] + t);
        lemma_segs_join(x, t);
        assert(comp_texts(cs) =~= comp_texts(ds).push(t));
        assert(comp_texts(cs).drop_last() =~= comp_texts(ds));
        assert(ds[0] == cs[0]);
        assert((x + seq!['/'] + t).take(comp_text(cs[0]).len() as int) =~= x.take(comp_text(cs[0]).len() as int));
        assert((x + seq!['/'] + t).last() == t.last());
        assert(cs =~= ds.push(c));
    }
}

/// The components of the text of names and parent references are those
/// components.
pub proof fn lemma_link_components(cs: Seq<Comp>)
    requires
        cs.len() > 0,
        link_comps(cs),
    ensures
        components(push_all(Seq::empty(), cs)) == cs,
{
    lemma_push_all_reads_back(cs);
    let x = push_all(Seq::empty(), cs);
    let t0 = comp_text(cs[0]);
    assert(t0.len() > 0 && t0[0] != '/') by {
        if cs[0] is Parent {
            assert(t0 =~= seq!['.', '.']);
        }
    }
    assert(!is_absolute(x));
    assert(!leads_with_cur(x)) by {
        if x[0] == '.' {
            assert(x.take(t0.len() as int)[0] == t0[0]);
            if t0.len() == 1 {
                assert(t0 =~= dot());
                if cs[0] is Parent {
                    assert(t0 =~= dotdot());
                }
            } else {
                assert(x.take(t0.len() as int)[1] == t0[1]);
                assert(t0[1] != '/') by {
                    if cs[0] is Parent {
                        assert(t0 =~= seq!['.', '.']);
                    }
                }
            }
        }
    }
    assert(components(x) =~= seg_comps(segs(x)));
}

proof fn lemma_push_all_concat(b: Seq<char>, x: Seq<Comp>, y: Seq<Comp>)
    ensures
        push_all(b, x + y) == push_all(push_all(b, x), y),
    decreases y.len(),
{
    if y.len() == 0 {
        assert(x + y =~= x);
    } else {
        assert((x + y).drop_last() =~= x + y.drop_last());
        assert((x + y).last() == y.last());
        lemma_push_all_concat(b, x, y.drop_last());
    }
}

proof fn lemma_walk_concat(base: Seq<Comp>, x: Seq<Comp>, y: Seq<Comp>)
    ensures
        walk(base, x + y) == walk(walk(base, x), y),
    decreases y.len(),
{
    if y.len() == 0 {
        assert(x + y =~= x);
    } else {
        assert((x + y).drop_last() =~= x + y.drop_last());
        assert((x + y).last() == y.last());
        lemma_walk_concat(base, x, y.drop_last());
    }
}

proof fn lemma_walk_parents(base: Seq<Comp>, k: nat)
    requires
        k <= base.len(),
    ensures
        walk(base, parents(k)) == base.take(base.len() - k),
    decreases k,
{
    if k == 0 {
        assert(parents(0) =~= Seq::<Comp>::empty());
        assert(base.take(base.len() as int) =~= base);
    } else {
        assert(parents(k).drop_last() =~= parents((k - 1) as nat));
        assert(parents(k).last() == Comp::Parent);
        lemma_walk_parents(base, (k - 1) as nat);
        assert(base.take(base.len() - (k - 1)).drop_last() =~= base.take(base.len() - k));
    }
}

proof fn lemma_walk_names(base: Seq<Comp>, u: Seq<Comp>)
    requires
        plain_comps(u),
    ensures
        walk(base, u) == base + u,
    decreases u.len(),
{
    if u.len() == 0 {
        assert(base + u =~= base);
    } else {
        let d = u.drop_last();
        assert(plain_comps(d)) by {
            assert forall|i: int| 0 <= i < d.len() implies (#[trigger] d[i] matches Comp::Normal(n) && plain_name(n)) by {
                assert(d[i] == u[i]);
            }
        }
        lemma_walk_names(base, d);
        assert(u[u.len() - 1] == u.last());
        assert((base + d).push(u.last()) =~= base + u);
    }
}

proof fn lemma_common_prefix_eq(a: Seq<Comp>, b: Seq<Comp>, s: int)
    requires
        0 <= s <= a.len(),
        s <= b.len(),
        forall|j: int| 0 <= j < s ==> a[j] == b[j],
    ensures
        forall|j: int| 0 <= j < common_prefix_from(a, b, s) ==> a[j] == b[j],
    decreases a.len() - s,
{
    if s < a.len() && s < b.len() && a[s] == b[s] {
        lemma_common_prefix_eq(a, b, s + 1);
    }
}

/// A relative link placed at `from_key` leads to `to`: following its
/// components from the directory that holds `from_key` arrives exactly at
/// the components of `to`, for keys made of plain names (such as lockfile
/// keys and workspace paths).
pub proof fn lemma_relative_path_resolves(from_key: Seq<char>, to: Seq<char>)
    requires
        plain_comps(components(from_key)),
        plain_comps(components(to)),
    ensures
        walk(parent_comps(components(from_key)), components(relative_path_spec(from_key, to))) == components(to),
{
    let fc = components(from_key);
    let f = parent_comps(fc);
    let t = components(to);
    assert(plain_comps(f)) by {
        assert forall|i: int| 0 <= i < f.len() implies (#[trigger] f[i] matches Comp::Normal(n) && plain_name(n)) by {
            assert(f[i] == fc[i]);
        }
    }
    lemma_common_prefix_bounds(f, t, 0);
    lemma_common_prefix_eq(f, t, 0);
    let i = common_prefix_from(f, t, 0);
    let k = (f.len() - i) as nat;
    let u = t.skip(i);
    assert(plain_comps(u)) by {
        assert forall|j: int| 0 <= j < u.len() implies (#[trigger] u[j] matches Comp::Normal(n) && plain_name(n)) by {
            assert(u[j] == t[j + i]);
        }
    }
    let rel = parents(k) + u;
    lemma_push_all_concat(Seq::empty(), parents(k), u);
    let out = push_all(push_all(Seq::empty(), parents(k)), u);
    assert(out == push_all(Seq::empty(), rel));
    assert(f.take(i) =~= t.take(i));
    assert(t.take(i) + u =~= t);
    lemma_walk_concat(f, parents(k), u);
    lemma_walk_parents(f, k);
    lemma_walk_names(f.take(i), u);
    if rel.len() == 0 {
        assert(push_all(Seq::<char>::empty(), Seq::<Comp>::empty()) == Seq::<char>::empty());
        assert(rel =~= Seq::<Comp>::empty());
        assert(relative_path_spec(from_key, to) == dot());
        assert(segs(dot()) == seq![dot()]) by {
            lemma_segs_single(dot());
        }
        assert(seg_comps(seq![dot()]) == seg_comps(Seq::<Seq<char>>::empty()) + seg_comp(dot())) by {
            assert(seq![dot()].drop_last() =~= Seq::<Seq<char>>::empty());
        }
        assert(components(dot()) =~= seq![Comp::Cur]);
        assert(seq![Comp::Cur].drop_last() =~= Seq::<Comp>::empty());
        assert(walk(f, seq![Comp::Cur]) == f);
        assert(f =~= t);
    } else {
        assert(link_comps(rel)) by {
            assert forall|j: int| 0 <= j < rel.len() implies (#[trigger] rel[j] is Parent || (rel[j] matches Comp::Normal(n)
                && plain_name(n))) by {
                if j >= k {
                    assert(rel[j] == u[j - k]);
                }
            }
        }
        lemma_push_all_reads_back(rel);
        lemma_link_components(rel);
        assert(relative_path_spec(from_key, to) == out);
    }
}

} // verus!
