//! Static, non-executing inspection of package text: install script bodies,
//! `binding.gyp` targets, file-write hints and candidate output paths.
use vstd::prelude::*;
use crate::paths::{components, escapes, Comp, PathComp, path_components};
use crate::text::{
    chars_of, contains_chars, count_char, count_char_chars, ends_with, find, find_chars,
    has_char, has_char_chars, has_sub, lemma_find, lower, lower_chars, occurs_at, own,
    replace_all, replace_char, rfind, rfind_chars, lemma_rfind, skip_chars, slice, starts_with,
    starts_with_chars, string_of, trim_start, trim_start_chars, str_eq, ends_with_chars,
};

verus! {

// ---------------------------------------------------------------------------
// Install script bodies
// ---------------------------------------------------------------------------

/// Why a lifecycle script body is considered unsafe, if it is: the first of
/// the known dangerous patterns found in its lower-cased text.
pub open spec fn script_unsafe_reason(body: Seq<char>) -> Option<Seq<char>> {
    let l = lower(body);
    if has_sub(l, "curl "@) {
        Some("network download via curl"@)
    } else if has_sub(l, "wget "@) {
        Some("network download via wget"@)
    } else if has_sub(l, "| sh"@) || has_sub(l, "|sh"@) || has_sub(l, "| bash"@) {
        Some("pipe to shell"@)
    } else if has_sub(l, "powershell"@) {
        Some("powershell invocation"@)
    } else if has_sub(l, "invoke-webrequest"@) {
        Some("network download"@)
    } else if has_sub(l, "rm -rf /"@) {
        Some("destructive root delete"@)
    } else if has_sub(l, "../"@) {
        Some("parent-directory reference in script"@)
    } else {
        None
    }
}

fn has_pat(l: &Vec<char>, p: &str) -> (r: bool)
    ensures
        r == has_sub(l@, p@),
{
    let pc = chars_of(p);
    contains_chars(l, &pc)
}

/// Static check of a lifecycle script body: (unsafe, reason).
pub fn script_body_unsafe(body: &str) -> (r: (bool, Option<String>))
    ensures
        r.0 == script_unsafe_reason(body@).is_some(),
        match (r.1, script_unsafe_reason(body@)) {
            (Some(a), Some(b)) => a@ == b,
            (None, None) => true,
            _ => false,
        },
{
    let b = chars_of(body);
    let l = lower_chars(&b);
    if has_pat(&l, "curl ") {
        (true, Some(own("network download via curl")))
    } else if has_pat(&l, "wget ") {
        (true, Some(own("network download via wget")))
    } else if has_pat(&l, "| sh") || has_pat(&l, "|sh") || has_pat(&l, "| bash") {
        (true, Some(own("pipe to shell")))
    } else if has_pat(&l, "powershell") {
        (true, Some(own("powershell invocation")))
    } else if has_pat(&l, "invoke-webrequest") {
        (true, Some(own("network download")))
    } else if has_pat(&l, "rm -rf /") {
        (true, Some(own("destructive root delete")))
    } else if has_pat(&l, "../") {
        (true, Some(own("parent-directory reference in script")))
    } else {
        (false, None)
    }
}

// ---------------------------------------------------------------------------
// binding.gyp
// ---------------------------------------------------------------------------

/// An acceptable gyp target name.
pub open spec fn gyp_name_ok(n: Seq<char>) -> bool {
    n.len() > 0 && !n.contains('/') && !has_sub(n, ".."@)
}

/// First acceptable `"target_name": "<name>"` in `search` (JSON-like text,
/// comments allowed). A malformed occurrence ends the search.
pub open spec fn gyp_target(search: Seq<char>) -> Option<Seq<char>>
    decreases search.len(),
{
    let key = "\"target_name\""@;
    let idx = find(search, key);
    if idx < 0 || idx + key.len() > search.len() {
        None
    } else {
        let after = trim_start(search.skip(idx + key.len()));
        if after.len() == 0 || after[0] != ':' {
            None
        } else {
            let a2 = trim_start(after.skip(1));
            if a2.len() == 0 || a2[0] != '"' {
                None
            } else {
                let a3 = a2.skip(1);
                let e = find(a3, seq!['"']);
                if e < 0 {
                    None
                } else if gyp_name_ok(a3.take(e)) {
                    Some(a3.take(e))
                } else {
                    gyp_target(search.skip(idx + 1))
                }
            }
        }
    }
}

proof fn lemma_trim_start_len(s: Seq<char>)
    ensures
        trim_start(s).len() <= s.len(),
    decreases s.len(),
{
    if s.len() > 0 && crate::text::is_space(s[0]) {
        lemma_trim_start_len(s.skip(1));
    }
}

/// The first acceptable gyp `target_name` in `text`.
pub fn parse_gyp_target_name(text: &str) -> (r: Option<String>)
    ensures
        match (r, gyp_target(text@)) {
            (Some(a), Some(b)) => a@ == b,
            (None, None) => true,
            _ => false,
        },
{
    let key = chars_of("\"target_name\"");
    let mut search = chars_of(text);
    loop
        invariant
            key@ == "\"target_name\""@,
            gyp_target(text@) == gyp_target(search@),
        decreases search@.len(),
    {
        proof {
            lemma_find(search@, key@);
        }
        let idx = match find_chars(&search, &key) {
            None => {
                return None;
            },
            Some(i) => i,
        };
        assert(occurs_at(search@, key@, idx as int));
        let kl = key.len();
        assert(idx + kl <= search.len());
        let rest = skip_chars(&search, idx + kl);
        let after = trim_start_chars(&rest);
        if after.len() == 0 || after[0] != ':' {
            return None;
        }
        let a1 = skip_chars(&after, 1);
        let a2 = trim_start_chars(&a1);
        if a2.len() == 0 || a2[0] != '"' {
            return None;
        }
        let a3 = skip_chars(&a2, 1);
        let q = vec!['"'];
        assert(q@ =~= seq!['"']);
        proof {
            lemma_find(a3@, q@);
        }
        let e = match find_chars(&a3, &q) {
            None => {
                return None;
            },
            Some(e) => e,
        };
        assert(occurs_at(a3@, q@, e as int));
        assert(e + 1 <= a3.len());
        let name = slice(&a3, 0, e);
        assert(name@ =~= a3@.take(e as int));
        let dd = chars_of("..");
        if name.len() > 0 && !has_char_chars(&name, '/') && !contains_chars(&name, &dd) {
            return Some(string_of(&name));
        }
        search = skip_chars(&search, idx + 1);
    }
}

// ---------------------------------------------------------------------------
// File-write hints
// ---------------------------------------------------------------------------

/// A literal that plausibly names a relative file (parent references are let
/// through so that candidate validation records them as rejected).
pub open spec fn plausible_static_rel_path(p: Seq<char>) -> bool {
    if p.len() == 0 || p.contains('$') || p.contains('`') || p.contains('+') {
        false
    } else if p[0] == '/' && !has_sub(p, ".."@) {
        false
    } else {
        p.contains('.') || p.contains('/') || has_sub(p, ".."@)
    }
}

/// Whether `path` plausibly names a relative file.
pub fn is_plausible_static_rel_path(path: &str) -> (r: bool)
    ensures
        r == plausible_static_rel_path(path@),
{
    let p = chars_of(path);
    let dd = chars_of("..");
    if p.len() == 0 || has_char_chars(&p, '$') || has_char_chars(&p, '`') || has_char_chars(
        &p,
        '+',
    ) {
        return false;
    }
    if p[0] == '/' && !contains_chars(&p, &dd) {
        return false;
    }
    has_char_chars(&p, '.') || has_char_chars(&p, '/') || contains_chars(&p, &dd)
}

/// Literal paths written through the call `prefix` (which ends with the
/// opening quote `quote`), scanning `rest` left to right; `\` becomes `/`.
pub open spec fn hints_for(rest: Seq<char>, prefix: Seq<char>, quote: char) -> Seq<Seq<char>>
    decreases rest.len(),
{
    let idx = find(rest, prefix);
    if idx < 0 || prefix.len() == 0 || idx + prefix.len() > rest.len() {
        Seq::empty()
    } else {
        let after = rest.skip(idx + prefix.len());
        let end = find(after, seq![quote]);
        if end < 0 {
            Seq::empty()
        } else {
            let path = after.take(end);
            proof {
                lemma_find(after, seq![quote]);
            }
            let tail = hints_for(after.skip(end + 1), prefix, quote);
            if plausible_static_rel_path(path) {
                seq![replace_all(path, seq!['\\'], seq!['/'])] + tail
            } else {
                tail
            }
        }
    }
}

/// Conservative write hints: `writeFileSync`, `writeFile` and `outputFileSync`
/// calls with a literal first argument, double then single quoted.
pub open spec fn static_write_hints_spec(src: Seq<char>) -> Seq<Seq<char>> {
    hints_for(src, "writeFileSync(\""@, '"') + hints_for(src, "writeFileSync('"@, '\'')
        + hints_for(src, "writeFile(\""@, '"') + hints_for(src, "writeFile('"@, '\'') + hints_for(
        src,
        "outputFileSync(\""@,
        '"',
    ) + hints_for(src, "outputFileSync('"@, '\'')
}

fn hints_into(out: &mut Vec<String>, src: &Vec<char>, prefix: &str, quote: char)
    ensures
        final(out).deep_view() == old(out).deep_view() + hints_for(src@, prefix@, quote),
{
    let pc = chars_of(prefix);
    let q = vec![quote];
    assert(q@ =~= seq![quote]);
    let mut rest = slice(src, 0, src.len());
    assert(rest@ =~= src@);
    if pc.len() == 0 {
        return;
    }
    loop
        invariant
            pc@ == prefix@,
            pc@.len() > 0,
            q@ == seq![quote],
            old(out).deep_view() + hints_for(src@, prefix@, quote) == out.deep_view() + hints_for(
                rest@,
                prefix@,
                quote,
            ),
        decreases rest@.len(),
    {
        proof {
            lemma_find(rest@, pc@);
        }
        let idx = match find_chars(&rest, &pc) {
            None => {
                assert(out.deep_view() + hints_for(rest@, prefix@, quote) =~= out.deep_view());
                return;
            },
            Some(i) => i,
        };
        assert(occurs_at(rest@, pc@, idx as int));
        let pl = pc.len();
        assert(idx + pl <= rest.len());
        let after = skip_chars(&rest, idx + pl);
        proof {
            lemma_find(after@, q@);
        }
        let end = match find_chars(&after, &q) {
            None => {
                assert(out.deep_view() + hints_for(rest@, prefix@, quote) =~= out.deep_view());
                return;
            },
            Some(e) => e,
        };
        assert(occurs_at(after@, q@, end as int));
        assert(end + 1 <= after.len());
        let path = slice(&after, 0, end);
        assert(path@ =~= after@.take(end as int));
        let ps = string_of(&path);
        let ghost before = out.deep_view();
        if is_plausible_static_rel_path(ps.as_str()) {
            let norm = replace_char(&path, '\\', '/');
            out.push(string_of(&norm));
            assert(out.deep_view() =~= before.push(norm@));
        }
        rest = skip_chars(&after, end + 1);
    }
}

/// Paths that static write calls in `src` name, in the order of the call forms.
pub fn static_write_hints(src: &str) -> (r: Vec<String>)
    ensures
        r.deep_view() == static_write_hints_spec(src@),
{
    let s = chars_of(src);
    let mut out: Vec<String> = Vec::new();
    assert(out.deep_view() =~= Seq::<Seq<char>>::empty());
    hints_into(&mut out, &s, "writeFileSync(\"", '"');
    hints_into(&mut out, &s, "writeFileSync('", '\'');
    hints_into(&mut out, &s, "writeFile(\"", '"');
    hints_into(&mut out, &s, "writeFile('", '\'');
    hints_into(&mut out, &s, "outputFileSync(\"", '"');
    hints_into(&mut out, &s, "outputFileSync('", '\'');
    assert(out.deep_view() =~= static_write_hints_spec(src@));
    out
}

// ---------------------------------------------------------------------------
// Candidate output paths
// ---------------------------------------------------------------------------

/// The parent part of a normalized glob path: everything before the last `/`.
pub open spec fn glob_parent(p: Seq<char>) -> Seq<char> {
    let i = rfind(p, seq!['/']);
    if i < 0 {
        Seq::empty()
    } else {
        p.take(i)
    }
}

/// Why a discovered/suggested output path is not an acceptable candidate, if it is not.
pub open spec fn candidate_path_problem(path: Seq<char>) -> Option<Seq<char>> {
    let stars = count_char(path, '*');
    let slash = rfind(path, seq!['/']);
    let norm = replace_all(path, seq!['\\'], seq!['/']);
    if path.len() == 0 {
        Some("empty output path"@)
    } else if has_sub(path, "**"@) || path.contains('?') || path.contains('[') {
        Some("ambiguous glob rejected"@)
    } else if stars > 1 {
        Some("multiple wildcards rejected"@)
    } else if stars == 1 && slash < 0 {
        Some("top-level glob rejected"@)
    } else if stars == 1 && (slash == 0 || path.skip(slash + 1) != "*.node"@) {
        Some("only final-component *.node globs are considered candidates"@)
    } else if path.len() > 0 && path.last() == '/' {
        Some("directory outputs rejected; declare files"@)
    } else if has_sub(norm, "node_modules/"@) || starts_with(norm, ".bin/"@) {
        Some("outputs under node_modules/ or .bin/ rejected"@)
    } else if count_char(norm, '/') + 1 > 8 {
        Some("output path too deep"@)
    } else if !norm.contains('*') {
        if escapes(norm) {
            if crate::paths::is_absolute(norm) {
                Some("absolute declared output paths are not allowed"@)
            } else {
                Some("path traversal rejected in declared output"@)
            }
        } else {
            None
        }
    } else if escapes(glob_parent(norm)) {
        Some("path traversal rejected"@)
    } else {
        None
    }
}

/// Validate a discovered/suggested output path candidate: an exact relative
/// file, or a final-component `*.node` glob under a directory.
pub fn validate_output_candidate_path(path: &str) -> (r: Result<(), String>)
    ensures
        match (r, candidate_path_problem(path@)) {
            (Ok(()), None) => true,
            (Err(e), Some(m)) => e@ == m,
            _ => false,
        },
{
    let p = chars_of(path);
    if p.len() == 0 {
        return Err(own("empty output path"));
    }
    let dstar = chars_of("**");
    if contains_chars(&p, &dstar) || has_char_chars(&p, '?') || has_char_chars(&p, '[') {
        return Err(own("ambiguous glob rejected"));
    }
    let stars = count_char_chars(&p, '*');
    if stars > 1 {
        return Err(own("multiple wildcards rejected"));
    }
    let sl = vec!['/'];
    assert(sl@ =~= seq!['/']);
    proof {
        lemma_rfind(p@, sl@);
    }
    let slash = rfind_chars(&p, &sl);
    if stars == 1 {
        match slash {
            None => {
                return Err(own("top-level glob rejected"));
            },
            Some(i) => {
                assert(occurs_at(p@, sl@, i as int));
                assert(i + 1 <= p.len());
                let file = skip_chars(&p, i + 1);
                let nodeglob = chars_of("*.node");
                if i == 0 || !crate::text::eq_chars(&file, &nodeglob) {
                    return Err(own("only final-component *.node globs are considered candidates"));
                }
            },
        }
    }
    if p[p.len() - 1] == '/' {
        return Err(own("directory outputs rejected; declare files"));
    }
    let norm = replace_char(&p, '\\', '/');
    let nm = chars_of("node_modules/");
    let bin = chars_of(".bin/");
    if contains_chars(&norm, &nm) || starts_with_chars(&norm, &bin) {
        return Err(own("outputs under node_modules/ or .bin/ rejected"));
    }
    let slashes = count_char_chars(&norm, '/');
    if slashes >= 8 {
        return Err(own("output path too deep"));
    }
    if !has_char_chars(&norm, '*') {
        let ns = string_of(&norm);
        match crate::paths::validate_declared_output(ns.as_str()) {
            Ok(_) => Ok(()),
            Err(e) => Err(e.reason()),
        }
    } else {
        let ghost gp = glob_parent(norm@);
        proof {
            lemma_rfind(norm@, sl@);
        }
        let parent = match rfind_chars(&norm, &sl) {
            None => Vec::new(),
            Some(i) => {
                assert(occurs_at(norm@, sl@, i as int));
                slice(&norm, 0, i)
            },
        };
        assert(parent@ =~= gp);
        if crate::paths::escapes_chars(&parent) {
            return Err(own("path traversal rejected"));
        }
        Ok(())
    }
}

} // verus!
