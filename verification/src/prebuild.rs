//! Native prebuild resolution from package metadata.
//!
//! Detects statically how packages obtain native binaries during install
//! (node-pre-gyp `binary` fields, prebuild-install layouts, concrete HTTPS
//! literals, author `weave.prebuildFetches`) without executing scripts and
//! without granting them network access. Discovered URLs are never
//! auto-approved: only fully concrete HTTPS URLs with a known SRI may enter a
//! reviewable suggestion.
use vstd::prelude::*;
use crate::config::{parse_https_host, parse_https_host_spec, ExecutionConfig, PrebuildFetchSpec};
use crate::discovery::debug_list;
use crate::integrity::valid_sri;
use crate::json::{json_flag, json_get, json_get_in, json_text, json_text_map, json_text_or_empty, JsonValue};
use crate::scan::candidate_path_problem;
use crate::textmap::{lex_lt, sort_dedup, sorted_set, strictly_sorted, TextMap};
use crate::text::{
    chars_of, debug_quoted, debug_str, decimal, decimal_string, extend_str, find, has_sub,
    is_space, is_space_char, lower, opt_view, own, replace_all, replace_chars, str_eq, string_of,
    trim_end_matches, trim_start_matches,
};

verus! {

/// The platform a plan is made for, in npm's `os` / `cpu` vocabulary.
#[derive(Debug, Clone, PartialEq, Eq)]
pub struct HostPlatform {
    /// npm `os` token (`linux`, `darwin`, `win32`, ...).
    pub os: String,
    /// npm `cpu` token (`x64`, `arm64`, ...).
    pub cpu: String,
}

/// npm `os` token for Rust's `std::env::consts::OS` value.
pub open spec fn npm_os_for(rust_os: Seq<char>) -> Seq<char> {
    if rust_os == "macos"@ {
        "darwin"@
    } else if rust_os == "windows"@ {
        "win32"@
    } else {
        rust_os
    }
}

/// npm `cpu` token for Rust's `std::env::consts::ARCH` value.
pub open spec fn npm_cpu_for(rust_arch: Seq<char>) -> Seq<char> {
    if rust_arch == "x86_64"@ {
        "x64"@
    } else if rust_arch == "aarch64"@ {
        "arm64"@
    } else if rust_arch == "x86"@ {
        "ia32"@
    } else {
        rust_arch
    }
}

impl HostPlatform {
    /// The platform whose Rust `OS` / `ARCH` constants are given.
    pub fn from_rust(rust_os: &str, rust_arch: &str) -> (r: HostPlatform)
        ensures
            r.os@ == npm_os_for(rust_os@),
            r.cpu@ == npm_cpu_for(rust_arch@),
    {
        let os = if str_eq(rust_os, "macos") {
            own("darwin")
        } else if str_eq(rust_os, "windows") {
            own("win32")
        } else {
            own(rust_os)
        };
        let cpu = if str_eq(rust_arch, "x86_64") {
            own("x64")
        } else if str_eq(rust_arch, "aarch64") {
            own("arm64")
        } else if str_eq(rust_arch, "x86") {
            own("ia32")
        } else {
            own(rust_arch)
        };
        HostPlatform { os, cpu }
    }

    /// npm `os` token.
    pub fn npm_os(&self) -> (r: &str)
        ensures
            r@ == self.os@,
    {
        self.os.as_str()
    }

    /// npm `cpu` token.
    pub fn npm_cpu(&self) -> (r: &str)
        ensures
            r@ == self.cpu@,
    {
        self.cpu.as_str()
    }
}

// ---------------------------------------------------------------------------
// Template tokens
// ---------------------------------------------------------------------------

/// Values substituted into node-pre-gyp templates.
pub struct TokenContext {
    /// `{name}`.
    pub name: String,
    /// `{version}`.
    pub version: String,
    /// `{platform}`.
    pub platform: String,
    /// `{arch}`.
    pub arch: String,
    /// `{node_abi}`.
    pub node_abi: String,
    /// `{napi_build_version}`.
    pub napi_build_version: u32,
    /// `{tool}`.
    pub tool: String,
    /// `{tool_version}`.
    pub tool_version: String,
}

/// Template values as plain values.
pub struct TokenValues {
    pub name: Seq<char>,
    pub version: Seq<char>,
    pub platform: Seq<char>,
    pub arch: Seq<char>,
    pub node_abi: Seq<char>,
    pub napi_build_version: nat,
    pub tool: Seq<char>,
    pub tool_version: Seq<char>,
}

impl View for TokenContext {
    type V = TokenValues;

    open spec fn view(&self) -> TokenValues {
        TokenValues {
            name: self.name@,
            version: self.version@,
            platform: self.platform@,
            arch: self.arch@,
            node_abi: self.node_abi@,
            napi_build_version: self.napi_build_version as nat,
            tool: self.tool@,
            tool_version: self.tool_version@,
        }
    }
}

/// `input` with every known token replaced, in the fixed order.
pub open spec fn substituted(input: Seq<char>, v: TokenValues) -> Seq<char> {
    let a = replace_all(input, "{name}"@, v.name);
    let b = replace_all(a, "{version}"@, v.version);
    let c = replace_all(b, "{platform}"@, v.platform);
    let d = replace_all(c, "{arch}"@, v.arch);
    let e = replace_all(d, "{node_abi}"@, v.node_abi);
    let f = replace_all(e, "{configuration}"@, "Release"@);
    let g = replace_all(f, "{tool}"@, v.tool);
    let h = replace_all(g, "{tool_version}"@, v.tool_version);
    replace_all(h, "{napi_build_version}"@, decimal(v.napi_build_version))
}

/// A `{configuration}` token at the start of `c + x` survives replacing any
/// other token that begins `{` followed by a character other than `c`.
proof fn lemma_configuration_survives(x: Seq<char>, p: Seq<char>, r: Seq<char>)
    requires
        p.len() >= 2,
        p[0] == '{',
        p[1] != 'c',
    ensures
        replace_all("{configuration}"@ + x, p, r) == "{configuration}"@ + replace_all(x, p, r),
{
    reveal_strlit("{configuration}");
    let c = "{configuration}"@;
    let s = c + x;
    assert(!crate::text::starts_with(s, p)) by {
        if crate::text::starts_with(s, p) {
            assert(s.subrange(0, p.len() as int)[1] == p[1]);
        }
    }
    assert(s.skip(1) =~= c.skip(1) + x);
    crate::text::lemma_replace_prefix_free(c.skip(1), x, p, r);
    assert(seq![s[0]] + (c.skip(1) + replace_all(x, p, r)) =~= c + replace_all(x, p, r));
}

/// Replacing a token other than `{configuration}` in `a + {configuration} + x`,
/// where `a` holds no `{`, only touches `x`.
proof fn lemma_before_configuration(a: Seq<char>, x: Seq<char>, p: Seq<char>, r: Seq<char>)
    requires
        forall|i: int| 0 <= i < a.len() ==> a[i] != '{',
        p.len() >= 2,
        p[0] == '{',
        p[1] != 'c',
    ensures
        replace_all(a + "{configuration}"@ + x, p, r) == a + "{configuration}"@ + replace_all(x, p, r),
{
    assert(a + "{configuration}"@ + x =~= a + ("{configuration}"@ + x));
    crate::text::lemma_replace_prefix_free(a, "{configuration}"@ + x, p, r);
    lemma_configuration_survives(x, p, r);
    assert(a + ("{configuration}"@ + replace_all(x, p, r)) =~= a + "{configuration}"@ + replace_all(x, p, r));
}

/// Replacing a `{`-token in `a + y`, where `a` holds no `{`, only touches `y`.
proof fn lemma_after_prefix(a: Seq<char>, y: Seq<char>, p: Seq<char>, r: Seq<char>)
    requires
        forall|i: int| 0 <= i < a.len() ==> a[i] != '{',
        p.len() >= 2,
        p[0] == '{',
    ensures
        replace_all(a + y, p, r) == a + replace_all(y, p, r),
{
    crate::text::lemma_replace_prefix_free(a, y, p, r);
}

/// The `{configuration}` token always becomes the text `Release`: in any
/// template whose text before its first `{` is `a` and whose first token is
/// `{configuration}`, the substituted text begins with `a` followed by
/// `Release`, whatever the token values and the rest of the template.
pub proof fn lemma_configuration_is_release(a: Seq<char>, b: Seq<char>, v: TokenValues)
    requires
        forall|i: int| 0 <= i < a.len() ==> a[i] != '{',
    ensures
        substituted(a + "{configuration}"@ + b, v).take(a.len() + 7int) == a + "Release"@,
{
    reveal_strlit("{name}");
    reveal_strlit("{version}");
    reveal_strlit("{platform}");
    reveal_strlit("{arch}");
    reveal_strlit("{node_abi}");
    reveal_strlit("{configuration}");
    reveal_strlit("{tool}");
    reveal_strlit("{tool_version}");
    reveal_strlit("{napi_build_version}");
    reveal_strlit("Release");
    let c = "{configuration}"@;
    let t0 = a + c + b;
    lemma_before_configuration(a, b, "{name}"@, v.name);
    let b1 = replace_all(b, "{name}"@, v.name);
    lemma_before_configuration(a, b1, "{version}"@, v.version);
    let b2 = replace_all(b1, "{version}"@, v.version);
    lemma_before_configuration(a, b2, "{platform}"@, v.platform);
    let b3 = replace_all(b2, "{platform}"@, v.platform);
    lemma_before_configuration(a, b3, "{arch}"@, v.arch);
    let b4 = replace_all(b3, "{arch}"@, v.arch);
    lemma_before_configuration(a, b4, "{node_abi}"@, v.node_abi);
    let b5 = replace_all(b4, "{node_abi}"@, v.node_abi);
    // the token itself
    assert(a + c + b5 =~= a + (c + b5));
    crate::text::lemma_replace_prefix_free(a, c + b5, c, "Release"@);
    assert(crate::text::starts_with(c + b5, c)) by {
        assert((c + b5).subrange(0, c.len() as int) =~= c);
    }
    assert((c + b5).skip(c.len() as int) =~= b5);
    let b6 = replace_all(b5, c, "Release"@);
    let pre = a + "Release"@;
    assert(forall|i: int| 0 <= i < pre.len() ==> pre[i] != '{') by {
        assert forall|i: int| 0 <= i < pre.len() implies pre[i] != '{' by {
            if i >= a.len() {
                assert(pre[i] == "Release"@[i - a.len()]);
            }
        }
    }
    assert(a + ("Release"@ + b6) =~= pre + b6);
    lemma_after_prefix(pre, b6, "{tool}"@, v.tool);
    let b7 = replace_all(b6, "{tool}"@, v.tool);
    lemma_after_prefix(pre, b7, "{tool_version}"@, v.tool_version);
    let b8 = replace_all(b7, "{tool_version}"@, v.tool_version);
    lemma_after_prefix(pre, b8, "{napi_build_version}"@, decimal(v.napi_build_version));
    let b9 = replace_all(b8, "{napi_build_version}"@, decimal(v.napi_build_version));
    assert(substituted(t0, v) == pre + b9);
    assert((pre + b9).take(a.len() + 7int) =~= pre);
}

/// Text without tokens is left as it is by substitution.
pub proof fn lemma_literal_template_unchanged(t: Seq<char>, v: TokenValues)
    requires
        forall|i: int| 0 <= i < t.len() ==> t[i] != '{',
    ensures
        substituted(t, v) == t,
{
    reveal_strlit("{name}");
    reveal_strlit("{version}");
    reveal_strlit("{platform}");
    reveal_strlit("{arch}");
    reveal_strlit("{node_abi}");
    reveal_strlit("{configuration}");
    reveal_strlit("{tool}");
    reveal_strlit("{tool_version}");
    reveal_strlit("{napi_build_version}");
    let e = Seq::<char>::empty();
    assert(t + e =~= t);
    assert(replace_all(e, "{name}"@, v.name) == e);
    crate::text::lemma_replace_prefix_free(t, e, "{name}"@, v.name);
    crate::text::lemma_replace_prefix_free(t, e, "{version}"@, v.version);
    crate::text::lemma_replace_prefix_free(t, e, "{platform}"@, v.platform);
    crate::text::lemma_replace_prefix_free(t, e, "{arch}"@, v.arch);
    crate::text::lemma_replace_prefix_free(t, e, "{node_abi}"@, v.node_abi);
    crate::text::lemma_replace_prefix_free(t, e, "{configuration}"@, "Release"@);
    crate::text::lemma_replace_prefix_free(t, e, "{tool}"@, v.tool);
    crate::text::lemma_replace_prefix_free(t, e, "{tool_version}"@, v.tool_version);
    crate::text::lemma_replace_prefix_free(t, e, "{napi_build_version}"@, decimal(v.napi_build_version));
}

/// Tokens left unresolved in a substituted template.
pub open spec fn unresolved_in(out: Seq<char>) -> Seq<Seq<char>> {
    brace_tokens(out, known_unresolved(out))
}

/// Tokens Weave never fills, present in `out`, in the fixed order.
pub open spec fn known_unresolved(out: Seq<char>) -> Seq<Seq<char>> {
    (if has_sub(out, "{libc}"@) { seq!["libc"@] } else { Seq::empty() }) + (if has_sub(
        out,
        "{libc_version}"@,
    ) {
        seq!["libc_version"@]
    } else {
        Seq::empty()
    }) + (if has_sub(out, "{platform_vendor}"@) {
        seq!["platform_vendor"@]
    } else {
        Seq::empty()
    }) + (if has_sub(out, "{target_arch}"@) {
        seq!["target_arch"@]
    } else {
        Seq::empty()
    }) + (if has_sub(out, "{module_name}"@) {
        seq!["module_name"@]
    } else {
        Seq::empty()
    })
}

/// `acc` extended by the names of the remaining `{...}` tokens in `rest`,
/// each once, in order of appearance.
pub open spec fn brace_tokens(rest: Seq<char>, acc: Seq<Seq<char>>) -> Seq<Seq<char>>
    decreases rest.len(),
{
    let s = find(rest, seq!['{']);
    if s < 0 || s >= rest.len() {
        acc
    } else {
        let after = rest.skip(s + 1);
        let e = find(after, seq!['}']);
        if e < 0 || e >= after.len() {
            acc
        } else {
            let tok = after.take(e);
            let acc2 = if tok.len() > 0 && !acc.contains(tok) {
                acc.push(tok)
            } else {
                acc
            };
            brace_tokens(after.skip(e + 1), acc2)
        }
    }
}

fn replace_str(s: &Vec<char>, from: &str, to: &str) -> (r: Vec<char>)
    requires
        from@.len() > 0,
    ensures
        r@ == replace_all(s@, from@, to@),
{
    replace_chars(s, &chars_of(from), &chars_of(to))
}

fn push_if_has(out: &mut Vec<String>, s: &Vec<char>, token: &str, name: &str)
    ensures
        final(out).deep_view() == old(out).deep_view() + (if has_sub(s@, token@) {
            seq![name@]
        } else {
            Seq::empty()
        }),
{
    let ghost before = out.deep_view();
    if crate::text::contains_chars(s, &chars_of(token)) {
        out.push(own(name));
        assert(out.deep_view() =~= before + seq![name@]);
    } else {
        assert(out.deep_view() =~= before + Seq::<Seq<char>>::empty());
    }
}

/// Substitute template tokens; report the tokens that remain unresolved.
pub fn substitute_tokens(input: &str, ctx: &TokenContext) -> (r: (String, Vec<String>))
    ensures
        r.0@ == substituted(input@, ctx@),
        r.1.deep_view() == unresolved_in(r.0@),
{
    let mut out = chars_of(input);
    proof {
        reveal_strlit("{name}");
        reveal_strlit("{version}");
        reveal_strlit("{platform}");
        reveal_strlit("{arch}");
        reveal_strlit("{node_abi}");
        reveal_strlit("{configuration}");
        reveal_strlit("{tool}");
        reveal_strlit("{tool_version}");
        reveal_strlit("{napi_build_version}");
    }
    out = replace_str(&out, "{name}", ctx.name.as_str());
    out = replace_str(&out, "{version}", ctx.version.as_str());
    out = replace_str(&out, "{platform}", ctx.platform.as_str());
    out = replace_str(&out, "{arch}", ctx.arch.as_str());
    out = replace_str(&out, "{node_abi}", ctx.node_abi.as_str());
    out = replace_str(&out, "{configuration}", "Release");
    out = replace_str(&out, "{tool}", ctx.tool.as_str());
    out = replace_str(&out, "{tool_version}", ctx.tool_version.as_str());
    let napi = decimal_string(ctx.napi_build_version as u64);
    out = replace_str(&out, "{napi_build_version}", napi.as_str());
    let mut unresolved: Vec<String> = Vec::new();
    assert(unresolved.deep_view() =~= Seq::<Seq<char>>::empty());
    push_if_has(&mut unresolved, &out, "{libc}", "libc");
    push_if_has(&mut unresolved, &out, "{libc_version}", "libc_version");
    push_if_has(&mut unresolved, &out, "{platform_vendor}", "platform_vendor");
    push_if_has(&mut unresolved, &out, "{target_arch}", "target_arch");
    push_if_has(&mut unresolved, &out, "{module_name}", "module_name");
    assert(unresolved.deep_view() =~= known_unresolved(out@));
    let ghost acc0 = unresolved.deep_view();
    let mut rest = crate::text::slice(&out, 0, out.len());
    assert(rest@ =~= out@);
    let open = vec!['{'];
    let close = vec!['}'];
    loop
        invariant
            brace_tokens(rest@, unresolved.deep_view()) == brace_tokens(out@, acc0),
            open@ == seq!['{'],
            close@ == seq!['}'],
        ensures
            unresolved.deep_view() == brace_tokens(out@, acc0),
        decreases rest@.len(),
    {
        let ghost r_old = rest@;
        let ghost u_old = unresolved.deep_view();
        proof {
            crate::text::lemma_find(rest@, open@);
        }
        let start = match crate::text::find_chars(&rest, &open) {
            Some(i) => i,
            None => {
                break;
            },
        };
        assert(crate::text::occurs_at(rest@, open@, start as int));
        let rl = rest.len();
        assert(start + 1 <= rl);
        let after = crate::text::skip_chars(&rest, start + 1);
        proof {
            crate::text::lemma_find(after@, close@);
        }
        let end = match crate::text::find_chars(&after, &close) {
            Some(e) => e,
            None => {
                break;
            },
        };
        assert(crate::text::occurs_at(after@, close@, end as int));
        let al = after.len();
        assert(end + 1 <= al);
        let tok = crate::text::slice(&after, 0, end);
        assert(tok@ =~= after@.take(end as int));
        let ts = string_of(&tok);
        if tok.len() > 0 && !crate::text::vec_has(&unresolved, ts.as_str()) {
            proof {
                assert(unresolved.deep_view().contains(tok@) <==> crate::text::list_has(
                    unresolved.deep_view(),
                    tok@,
                ));
            }
            unresolved.push(ts);
            assert(unresolved.deep_view() =~= u_old.push(tok@));
        } else {
            proof {
                assert(unresolved.deep_view().contains(tok@) ==> crate::text::list_has(
                    unresolved.deep_view(),
                    tok@,
                ));
            }
        }
        rest = crate::text::skip_chars(&after, end + 1);
        assert(brace_tokens(r_old, u_old) == brace_tokens(rest@, unresolved.deep_view()));
    }
    (string_of(&out), unresolved)
}

/// `host` and `path` joined by exactly one `/`.
pub open spec fn join_url_spec(host: Seq<char>, path: Seq<char>) -> Seq<char> {
    trim_end_matches(host, "/"@) + "/"@ + trim_start_matches(path, "/"@)
}

/// Join a base URL and a path with exactly one `/` between them.
pub fn join_url(host: &str, path: &str) -> (r: String)
    ensures
        r@ == join_url_spec(host@, path@),
{
    let slash = chars_of("/");
    let mut out = crate::text::trim_end_matches_chars(&chars_of(host), &slash);
    extend_str(&mut out, "/");
    let p = crate::text::trim_start_matches_chars(&chars_of(path), &slash);
    crate::text::extend_chars(&mut out, &p);
    string_of(&out)
}

// ---------------------------------------------------------------------------
// HTTPS literals
// ---------------------------------------------------------------------------

/// Characters that end a URL literal in script text.
pub open spec fn url_delim(c: char) -> bool {
    is_space(c) || c == '"' || c == '\'' || c == '`' || c == ')' || c == ';' || c == '<' || c == '>'
}

/// Index of the first URL delimiter in `s` at or after `i`, or `s.len()`.
pub open spec fn delim_from(s: Seq<char>, i: int) -> int
    decreases s.len() - i,
{
    if i < 0 || i >= s.len() {
        s.len() as int
    } else if url_delim(s[i]) {
        i
    } else {
        delim_from(s, i + 1)
    }
}

/// `delim_from` stays within the text.
pub proof fn lemma_delim_bound(s: Seq<char>, i: int)
    requires
        0 <= i,
    ensures
        i <= delim_from(s, i) <= s.len() || (i > s.len() && delim_from(s, i) == s.len()),
    decreases s.len() - i,
{
    if i < s.len() && !url_delim(s[i]) {
        lemma_delim_bound(s, i + 1);
    }
}

/// Characters trimmed from the end of a URL literal.
pub open spec fn url_trail(c: char) -> bool {
    c == '/' || c == '\\' || c == '.' || c == ','
}

/// `s` without trailing `/`, `\`, `.` and `,`.
pub open spec fn trim_url_end(s: Seq<char>) -> Seq<char>
    decreases s.len(),
{
    if s.len() > 0 && url_trail(s.last()) {
        trim_url_end(s.drop_last())
    } else {
        s
    }
}

/// Bytes `c` takes in UTF-8.
pub open spec fn char_utf8_len(c: char) -> nat {
    let u = c as u32;
    if u < 0x80 {
        1
    } else if u < 0x800 {
        2
    } else if u < 0x10000 {
        3
    } else {
        4
    }
}

/// Bytes `s` takes in UTF-8 (`str::len`).
pub open spec fn utf8_len(s: Seq<char>) -> nat
    decreases s.len(),
{
    if s.len() == 0 {
        0
    } else {
        utf8_len(s.drop_last()) + char_utf8_len(s.last())
    }
}

/// `https://` literals in `rest`, in order of appearance, keeping those
/// longer than 11 bytes.
pub open spec fn https_literals(rest: Seq<char>) -> Seq<Seq<char>>
    decreases rest.len(),
{
    let idx = find(rest, "https://"@);
    if idx < 0 || idx >= rest.len() {
        Seq::empty()
    } else {
        let slice = rest.skip(idx);
        let end = delim_from(slice, 0);
        let url = trim_url_end(slice.take(end));
        let step = if end > 1 {
            end
        } else {
            1
        };
        proof {
            lemma_delim_bound(slice, 0);
        }
        (if utf8_len(url) > 11 {
            seq![url]
        } else {
            Seq::empty()
        }) + https_literals(slice.skip(step))
    }
}

fn utf8_length(s: &Vec<char>) -> (n: usize)
    ensures
        n as nat == utf8_len(s@) || (n == usize::MAX && utf8_len(s@) >= usize::MAX),
{
    let mut n: usize = 0;
    let mut i: usize = 0;
    assert(s@.take(0) =~= Seq::<char>::empty());
    while i < s.len()
        invariant
            i <= s@.len(),
            n as nat == utf8_len(s@.take(i as int)) || (n == usize::MAX && utf8_len(
                s@.take(i as int),
            ) >= usize::MAX),
        decreases s@.len() - i,
    {
        assert(s@.take(i + 1).drop_last() =~= s@.take(i as int));
        let u = s[i] as u32;
        let w: usize = if u < 0x80 {
            1
        } else if u < 0x800 {
            2
        } else if u < 0x10000 {
            3
        } else {
            4
        };
        if n > usize::MAX - w {
            n = usize::MAX;
        } else {
            n = n + w;
        }
        i += 1;
    }
    assert(s@.take(s@.len() as int) =~= s@);
    n
}

fn trim_url_tail(s: &Vec<char>) -> (r: Vec<char>)
    ensures
        r@ == trim_url_end(s@),
{
    let mut k: usize = s.len();
    assert(s@.take(k as int) =~= s@);
    while k > 0 && (s[k - 1] == '/' || s[k - 1] == '\\' || s[k - 1] == '.' || s[k - 1] == ',')
        invariant
            k <= s@.len(),
            trim_url_end(s@.take(k as int)) == trim_url_end(s@),
        decreases k,
    {
        assert(s@.take(k as int).drop_last() =~= s@.take(k - 1));
        k -= 1;
    }
    crate::text::slice(s, 0, k)
}

/// Concrete `https://` URL literals in script text, sorted and deduplicated.
pub fn extract_https_literals(src: &str) -> (r: Vec<String>)
    ensures
        r.deep_view() == sorted_set(https_literals(src@)),
        strictly_sorted(r.deep_view()),
        r.deep_view().to_set() == https_literals(src@).to_set(),
{
    let pat = chars_of("https://");
    proof {
        reveal_strlit("https://");
    }
    let mut rest = chars_of(src);
    let mut found: Vec<String> = Vec::new();
    let ghost all = https_literals(src@);
    assert(found.deep_view() + https_literals(rest@) =~= all);
    loop
        invariant
            pat@ == "https://"@,
            pat@.len() == 8,
            found.deep_view() + https_literals(rest@) == all,
        ensures
            found.deep_view() == all,
        decreases rest@.len(),
    {
        proof {
            crate::text::lemma_find(rest@, pat@);
        }
        let idx = match crate::text::find_chars(&rest, &pat) {
            Some(i) => i,
            None => {
                assert(https_literals(rest@) =~= Seq::<Seq<char>>::empty());
                assert(found.deep_view() + Seq::<Seq<char>>::empty() =~= found.deep_view());
                break;
            },
        };
        assert(crate::text::occurs_at(rest@, pat@, idx as int));
        let rl = rest.len();
        assert(idx < rl);
        let slice = crate::text::skip_chars(&rest, idx);
        let mut end: usize = 0;
        while end < slice.len() && !(is_space_char(slice[end]) || slice[end] == '"' || slice[end]
            == '\'' || slice[end] == '`' || slice[end] == ')' || slice[end] == ';' || slice[end]
            == '<' || slice[end] == '>')
            invariant
                end <= slice@.len(),
                delim_from(slice@, 0) == delim_from(slice@, end as int),
            decreases slice@.len() - end,
        {
            end += 1;
        }
        assert(end as int == delim_from(slice@, 0));
        let head = crate::text::slice(&slice, 0, end);
        let url = trim_url_tail(&head);
        let ghost before = found.deep_view();
        if utf8_length(&url) > 11 {
            found.push(string_of(&url));
            assert(found.deep_view() =~= before + seq![url@]);
        } else {
            assert(found.deep_view() =~= before + Seq::<Seq<char>>::empty());
        }
        let step: usize = if end > 1 {
            end
        } else {
            1
        };
        let sl = slice.len();
        assert(step <= sl);
        let ghost old_rest = rest@;
        rest = crate::text::skip_chars(&slice, step);
        assert(https_literals(old_rest) == (if utf8_len(url@) > 11 {
            seq![url@]
        } else {
            Seq::<Seq<char>>::empty()
        }) + https_literals(rest@));
        assert(found.deep_view() + https_literals(rest@) =~= before + https_literals(old_rest));
    }
    sort_dedup(&found)
}

// ---------------------------------------------------------------------------
// Requirements
// ---------------------------------------------------------------------------

/// How a native prebuild source pattern was detected.
#[derive(Debug, Clone, Copy, PartialEq, Eq, Structural)]
pub enum PrebuildPatternKind {
    /// package.json `binary` (node-pre-gyp).
    NodePreGypBinary,
    /// Conventional `prebuilds/{platform}-{arch}/` layout + prebuild-install.
    PrebuildInstallLayout,
    /// Concrete `https://…` string literal in an install script file.
    InstallScriptHttpsLiteral,
    /// Author-declared `weave.prebuildFetches` in package.json.
    PackageWeavePrebuild,
    /// Well-known package name heuristic (still not an approval).
    KnownPackagePattern,
}

/// Whether Weave can materialize an explicit fetch entry from static metadata.
#[derive(Debug, Clone, Copy, PartialEq, Eq, Structural)]
pub enum PrebuildResolveStatus {
    /// Already present in `execution.prebuild.fetches`.
    Configured,
    /// Concrete HTTPS URL + output + integrity — ready for human review.
    Suggestable,
    /// URL/output known but integrity missing.
    NeedsIntegrity,
    /// Template tokens remain after substituting known platform values.
    UnresolvedTokens,
    /// Pattern detected but URL/output cannot be established safely.
    Opaque,
    /// HTTP / unsafe host / path — never suggest.
    BlockedUnsafe,
}

/// Rank of a pattern in declaration order (its `as u8`).
pub open spec fn pattern_rank(p: PrebuildPatternKind) -> int {
    match p {
        PrebuildPatternKind::NodePreGypBinary => 0,
        PrebuildPatternKind::PrebuildInstallLayout => 1,
        PrebuildPatternKind::InstallScriptHttpsLiteral => 2,
        PrebuildPatternKind::PackageWeavePrebuild => 3,
        PrebuildPatternKind::KnownPackagePattern => 4,
    }
}

/// `Debug` rendering of a pattern.
pub open spec fn pattern_text(p: PrebuildPatternKind) -> Seq<char> {
    match p {
        PrebuildPatternKind::NodePreGypBinary => "NodePreGypBinary"@,
        PrebuildPatternKind::PrebuildInstallLayout => "PrebuildInstallLayout"@,
        PrebuildPatternKind::InstallScriptHttpsLiteral => "InstallScriptHttpsLiteral"@,
        PrebuildPatternKind::PackageWeavePrebuild => "PackageWeavePrebuild"@,
        PrebuildPatternKind::KnownPackagePattern => "KnownPackagePattern"@,
    }
}

/// `Debug` rendering of a pattern.
pub fn pattern_debug(p: PrebuildPatternKind) -> (r: &'static str)
    ensures
        r@ == pattern_text(p),
{
    match p {
        PrebuildPatternKind::NodePreGypBinary => "NodePreGypBinary",
        PrebuildPatternKind::PrebuildInstallLayout => "PrebuildInstallLayout",
        PrebuildPatternKind::InstallScriptHttpsLiteral => "InstallScriptHttpsLiteral",
        PrebuildPatternKind::PackageWeavePrebuild => "PackageWeavePrebuild",
        PrebuildPatternKind::KnownPackagePattern => "KnownPackagePattern",
    }
}

/// One detected native artifact requirement (not an approval).
#[derive(Debug, PartialEq, Eq)]
pub struct NativePrebuildRequirement {
    /// Package name.
    pub package: String,
    /// Detection pattern.
    pub pattern: PrebuildPatternKind,
    /// Resolution status.
    pub status: PrebuildResolveStatus,
    /// Candidate HTTPS URL when concrete (or partially substituted template).
    pub url: Option<String>,
    /// Host extracted from URL when present.
    pub host: Option<String>,
    /// Relative output path under the package root when known.
    pub output: Option<String>,
    /// SRI when statically known (author metadata only).
    pub integrity: Option<String>,
    /// Optional Node ABI constraint inferred for this artifact.
    pub node_abi: Option<String>,
    /// Optional OS constraint.
    pub os: Option<String>,
    /// Optional CPU constraint.
    pub cpu: Option<String>,
    /// Template tokens that blocked full resolution.
    pub unresolved_tokens: Vec<String>,
    /// Why this artifact cannot (yet) be resolved / must be reviewed.
    pub reason: String,
}

/// A requirement as plain values.
pub struct RequirementModel {
    pub package: Seq<char>,
    pub pattern: PrebuildPatternKind,
    pub status: PrebuildResolveStatus,
    pub url: Option<Seq<char>>,
    pub host: Option<Seq<char>>,
    pub output: Option<Seq<char>>,
    pub integrity: Option<Seq<char>>,
    pub node_abi: Option<Seq<char>>,
    pub os: Option<Seq<char>>,
    pub cpu: Option<Seq<char>>,
    pub unresolved_tokens: Seq<Seq<char>>,
    pub reason: Seq<char>,
}

impl View for NativePrebuildRequirement {
    type V = RequirementModel;

    open spec fn view(&self) -> RequirementModel {
        RequirementModel {
            package: self.package@,
            pattern: self.pattern,
            status: self.status,
            url: opt_view(self.url),
            host: opt_view(self.host),
            output: opt_view(self.output),
            integrity: opt_view(self.integrity),
            node_abi: opt_view(self.node_abi),
            os: opt_view(self.os),
            cpu: opt_view(self.cpu),
            unresolved_tokens: self.unresolved_tokens.deep_view(),
            reason: self.reason@,
        }
    }
}

/// `Debug` rendering of an optional string.
pub open spec fn debug_opt(o: Option<Seq<char>>) -> Seq<char> {
    match o {
        Some(s) => "Some("@ + debug_quoted(s) + ")"@,
        None => "None"@,
    }
}

/// `Debug` rendering of an optional string.
pub fn debug_opt_str(o: &Option<String>) -> (r: String)
    ensures
        r@ == debug_opt(opt_view(*o)),
{
    match o {
        Some(s) => {
            let mut v = chars_of("Some(");
            extend_str(&mut v, debug_str(s.as_str()).as_str());
            extend_str(&mut v, ")");
            string_of(&v)
        },
        None => own("None"),
    }
}

/// Some configured fetch is for `package` with this exact URL and output.
pub open spec fn configured(cfg: ExecutionConfig, package: Seq<char>, url: Seq<char>, output: Seq<char>) -> bool {
    exists|i: int|
        0 <= i < cfg.prebuild.fetches@.len() && #[trigger] cfg.prebuild.fetches@[i].package@
            == package && cfg.prebuild.fetches@[i].url@ == url && cfg.prebuild.fetches@[i].output@
            == output
}

/// Whether `execution.prebuild.fetches` already holds this package/URL/output.
pub fn already_configured(cfg: &ExecutionConfig, package: &str, url: &str, output: &str) -> (r: bool)
    ensures
        r == configured(*cfg, package@, url@, output@),
{
    let mut i: usize = 0;
    while i < cfg.prebuild.fetches.len()
        invariant
            i <= cfg.prebuild.fetches@.len(),
            forall|j: int|
                0 <= j < i ==> !(#[trigger] cfg.prebuild.fetches@[j].package@ == package@
                    && cfg.prebuild.fetches@[j].url@ == url@ && cfg.prebuild.fetches@[j].output@
                    == output@),
        decreases cfg.prebuild.fetches@.len() - i,
    {
        let f = &cfg.prebuild.fetches[i];
        if str_eq(f.package.as_str(), package) && str_eq(f.url.as_str(), url) && str_eq(
            f.output.as_str(),
            output,
        ) {
            return true;
        }
        i += 1;
    }
    false
}

/// Status and reason once the integrity is considered (URL and output settled).
pub open spec fn finalize_tokens(m: RequirementModel) -> RequirementModel {
    if m.unresolved_tokens.len() > 0 {
        RequirementModel {
            status: PrebuildResolveStatus::UnresolvedTokens,
            reason: "unresolved template tokens "@ + debug_list(m.unresolved_tokens)
                + " prevent deterministic URL construction"@,
            ..m
        }
    } else {
        match m.integrity {
            Some(sri) if sri.len() > 0 => if !valid_sri(sri) {
                RequirementModel {
                    status: PrebuildResolveStatus::BlockedUnsafe,
                    reason: "invalid integrity SRI in metadata: "@ + sri,
                    ..m
                }
            } else {
                RequirementModel {
                    status: PrebuildResolveStatus::Suggestable,
                    reason: "concrete HTTPS URL + output + integrity established from metadata ("@
                        + pattern_text(m.pattern)
                        + ") — review before adding to execution.prebuild.fetches"@,
                    ..m
                }
            },
            _ => RequirementModel {
                status: PrebuildResolveStatus::NeedsIntegrity,
                reason: if m.reason.len() == 0 {
                    "URL "@ + debug_opt(m.url) + " and output "@ + debug_opt(m.output)
                        + " known, but integrity is missing — verify the artifact and set SRI before allowlisting (never auto-approved; scripts get no network)"@
                } else {
                    m.reason
                },
                ..m
            },
        }
    }
}

/// Status and reason once the output path is considered (URL is HTTPS).
pub open spec fn finalize_output(m: RequirementModel) -> RequirementModel {
    match m.output {
        None => RequirementModel {
            status: PrebuildResolveStatus::Opaque,
            reason: "output path unknown"@,
            ..m
        },
        Some(o) => match candidate_path_problem(o) {
            Some(err) => RequirementModel {
                status: PrebuildResolveStatus::BlockedUnsafe,
                reason: "unsafe output path: "@ + err,
                ..m
            },
            None => if o.contains('*') {
                RequirementModel {
                    status: PrebuildResolveStatus::Opaque,
                    reason: "output path is a glob — seal requires an exact relative file"@,
                    ..m
                }
            } else {
                finalize_tokens(m)
            },
        },
    }
}

/// Resolution of a requirement against the configuration: status, reason and
/// host are settled; every other field is kept.
pub open spec fn finalize_model(m: RequirementModel, cfg: ExecutionConfig) -> RequirementModel {
    if m.url.is_some() && m.output.is_some() && configured(
        cfg,
        m.package,
        m.url.unwrap(),
        m.output.unwrap(),
    ) {
        RequirementModel {
            status: PrebuildResolveStatus::Configured,
            reason: "already configured in execution.prebuild.fetches"@,
            host: match parse_https_host_spec(m.url.unwrap()) {
                Ok(sh) => Some(sh.1),
                Err(_) => m.host,
            },
            ..m
        }
    } else if m.url.is_none() {
        if m.reason.len() == 0 {
            RequirementModel {
                status: PrebuildResolveStatus::Opaque,
                reason: "no concrete download URL established"@,
                ..m
            }
        } else {
            m
        }
    } else {
        match parse_https_host_spec(m.url.unwrap()) {
            Err(e) => RequirementModel { status: PrebuildResolveStatus::BlockedUnsafe, reason: e, ..m },
            Ok(sh) => if sh.0 != "https"@ {
                RequirementModel {
                    status: PrebuildResolveStatus::BlockedUnsafe,
                    reason: "non-HTTPS URL rejected for prebuild policy"@,
                    host: Some(sh.1),
                    ..m
                }
            } else {
                finalize_output(RequirementModel { host: Some(sh.1), ..m })
            },
        }
    }
}

fn finalize_tail(req: &mut NativePrebuildRequirement)
    requires
        old(req).url.is_some(),
    ensures
        final(req)@ == finalize_tokens(old(req)@),
{
    if req.unresolved_tokens.len() > 0 {
        req.status = PrebuildResolveStatus::UnresolvedTokens;
        let mut m = chars_of("unresolved template tokens ");
        extend_str(&mut m, crate::discovery::debug_names(&req.unresolved_tokens).as_str());
        extend_str(&mut m, " prevent deterministic URL construction");
        req.reason = string_of(&m);
        return;
    }
    let sri_state: u8 = match &req.integrity {
        Some(sri) => if sri.as_str().is_empty() { 0 } else if crate::integrity::Integrity::parse(sri.as_str()).is_err() { 1 } else { 2 },
        None => 0,
    };
    if sri_state == 1 {
        req.status = PrebuildResolveStatus::BlockedUnsafe;
        let mut m = chars_of("invalid integrity SRI in metadata: ");
        match &req.integrity {
            Some(sri) => extend_str(&mut m, sri.as_str()),
            None => {},
        }
        req.reason = string_of(&m);
    } else if sri_state == 2 {
        req.status = PrebuildResolveStatus::Suggestable;
        let mut m = chars_of("concrete HTTPS URL + output + integrity established from metadata (");
        extend_str(&mut m, pattern_debug(req.pattern));
        extend_str(&mut m, ") — review before adding to execution.prebuild.fetches");
        req.reason = string_of(&m);
    } else {
        req.status = PrebuildResolveStatus::NeedsIntegrity;
        if req.reason.as_str().is_empty() {
            let mut m = chars_of("URL ");
            extend_str(&mut m, debug_opt_str(&req.url).as_str());
            extend_str(&mut m, " and output ");
            extend_str(&mut m, debug_opt_str(&req.output).as_str());
            extend_str(&mut m, " known, but integrity is missing — verify the artifact and set SRI before allowlisting (never auto-approved; scripts get no network)");
            req.reason = string_of(&m);
        }
    }
}

/// Settle status, reason and host of a requirement against the configuration.
pub fn finalize_requirement(req: &mut NativePrebuildRequirement, cfg: &ExecutionConfig)
    ensures
        final(req)@ == finalize_model(old(req)@, *cfg),
{
    if let (Some(url), Some(output)) = (&req.url, &req.output) {
        if already_configured(cfg, req.package.as_str(), url.as_str(), output.as_str()) {
            let h = match parse_https_host(url.as_str()) {
                Ok((_, host)) => Some(host),
                Err(_) => None,
            };
            req.status = PrebuildResolveStatus::Configured;
            req.reason = own("already configured in execution.prebuild.fetches");
            if h.is_some() {
                req.host = h;
            }
            return;
        }
    }
    let parsed = match &req.url {
        None => {
            if req.reason.as_str().is_empty() {
                req.status = PrebuildResolveStatus::Opaque;
                req.reason = own("no concrete download URL established");
            }
            proof {
                reveal_strlit("");
            }
            return;
        },
        Some(url) => parse_https_host(url.as_str()),
    };
    match parsed {
        Err(e) => {
            req.status = PrebuildResolveStatus::BlockedUnsafe;
            req.reason = e;
            return;
        },
        Ok((scheme, host)) => {
            req.host = Some(host);
            if !str_eq(scheme.as_str(), "https") {
                req.status = PrebuildResolveStatus::BlockedUnsafe;
                req.reason = own("non-HTTPS URL rejected for prebuild policy");
                return;
            }
        },
    }
    let out_state: u8 = match &req.output {
        None => 0,
        Some(o) => match crate::scan::validate_output_candidate_path(o.as_str()) {
            Err(_) => 1,
            Ok(()) => if crate::text::has_char_chars(&chars_of(o.as_str()), '*') { 2 } else { 3 },
        },
    };
    if out_state == 0 {
        req.status = PrebuildResolveStatus::Opaque;
        req.reason = own("output path unknown");
    } else if out_state == 1 {
        let err = match &req.output {
            Some(o) => match crate::scan::validate_output_candidate_path(o.as_str()) {
                Err(e) => e,
                Ok(()) => own(""),
            },
            None => own(""),
        };
        req.status = PrebuildResolveStatus::BlockedUnsafe;
        req.reason = crate::text::concat("unsafe output path: ", err.as_str());
    } else if out_state == 2 {
        req.status = PrebuildResolveStatus::Opaque;
        req.reason = own("output path is a glob — seal requires an exact relative file");
    } else {
        finalize_tail(req);
    }
}

// ---------------------------------------------------------------------------
// Package metadata and detection
// ---------------------------------------------------------------------------

/// An author-declared `weave.prebuildFetches` entry.
#[derive(Debug)]
pub struct WeavePrebuild {
    /// `url` (empty when absent).
    pub url: String,
    /// `integrity` (empty when absent).
    pub integrity: String,
    /// `output` (empty when absent).
    pub output: String,
    /// `node_abi`.
    pub node_abi: Option<String>,
    /// `os`.
    pub os: Option<String>,
    /// `cpu`.
    pub cpu: Option<String>,
}

/// node-pre-gyp `binary` fields.
#[derive(Debug)]
pub struct BinaryMeta {
    /// `module_name`.
    pub module_name: Option<String>,
    /// `module_path`.
    pub module_dir: Option<String>,
    /// `remote_path`.
    pub remote_path: Option<String>,
    /// `package_name`.
    pub package_name: Option<String>,
    /// `host`.
    pub host: Option<String>,
}

/// The slice of package.json that prebuild resolution reads.
#[derive(Debug)]
pub struct PrebuildMeta {
    /// `name`.
    pub name: Option<String>,
    /// `version`.
    pub version: Option<String>,
    /// `scripts` entries whose values are strings.
    pub scripts: TextMap<String>,
    /// `binary`, when present.
    pub binary: Option<BinaryMeta>,
    /// `weave.prebuildFetches` entries that name a URL and an output.
    pub weave_prebuilds: Vec<WeavePrebuild>,
    /// Some script runs prebuild-install.
    pub has_prebuild_install_script: bool,
    /// `binary.napi_versions` (or top-level `napi_versions`).
    pub napi_versions: Vec<u32>,
}

/// A script body runs `prebuild-install` (ASCII case ignored).
pub open spec fn runs_prebuild_install(body: Seq<char>) -> bool {
    crate::text::has_sub(crate::text::lower(body), "prebuild-install"@) || crate::text::has_sub(
        crate::text::lower(body),
        "prebuild --install"@,
    )
}

/// Some script of `scripts` runs `prebuild-install`.
pub open spec fn any_prebuild_install(scripts: TextMap<String>) -> bool {
    exists|i: int| 0 <= i < scripts.spec_entries().len() && runs_prebuild_install(#[trigger] scripts.spec_entries()[i].1)
}

/// A `weave.prebuildFetches` item is kept when it names a URL and an output.
pub open spec fn prebuild_item_kept(v: JsonValue) -> bool {
    json_text_or_empty(json_get(v, "url"@)).len() > 0 && json_text_or_empty(json_get(v, "output"@)).len() > 0
}

/// The kept `weave.prebuildFetches` items, in order.
pub open spec fn kept_prebuild_items(items: Seq<JsonValue>) -> Seq<JsonValue>
    decreases items.len(),
{
    if items.len() == 0 {
        Seq::empty()
    } else if prebuild_item_kept(items.last()) {
        kept_prebuild_items(items.drop_last()).push(items.last())
    } else {
        kept_prebuild_items(items.drop_last())
    }
}

/// The items of the array at `weave.prebuildFetches`.
pub open spec fn prebuild_items(v: JsonValue) -> Seq<JsonValue> {
    match json_get_in(json_get(v, "weave"@), "prebuildFetches"@) {
        Some(JsonValue::Array(a)) => a@,
        _ => Seq::empty(),
    }
}

/// `p` holds what the item `v` says.
pub open spec fn prebuild_from_item(p: WeavePrebuild, v: JsonValue) -> bool {
    &&& p.url@ == json_text_or_empty(json_get(v, "url"@))
    &&& p.integrity@ == json_text_or_empty(json_get(v, "integrity"@))
    &&& p.output@ == json_text_or_empty(json_get(v, "output"@))
    &&& opt_view(p.node_abi) == json_text(json_get(v, "node_abi"@))
    &&& opt_view(p.os) == json_text(json_get(v, "os"@))
    &&& opt_view(p.cpu) == json_text(json_get(v, "cpu"@))
}

/// The items of `binary.napi_versions`, or else of a top-level `napi_versions`.
pub open spec fn napi_items(v: JsonValue) -> Seq<JsonValue> {
    match json_get_in(json_get(v, "binary"@), "napi_versions"@) {
        Some(JsonValue::Array(a)) => a@,
        _ => match json_get(v, "napi_versions"@) {
            Some(JsonValue::Array(a)) => a@,
            _ => Seq::empty(),
        },
    }
}

/// The unsigned integer items, each cut to 32 bits, in order.
pub open spec fn napi_numbers(items: Seq<JsonValue>) -> Seq<u32>
    decreases items.len(),
{
    if items.len() == 0 {
        Seq::empty()
    } else {
        match items.last() {
            JsonValue::Number(Some(n)) => napi_numbers(items.drop_last()).push((n % 0x1_0000_0000) as u32),
            _ => napi_numbers(items.drop_last()),
        }
    }
}

fn weave_prebuilds_of(items: &Vec<JsonValue>) -> (r: Vec<WeavePrebuild>)
    ensures
        r@.len() == kept_prebuild_items(items@).len(),
        forall|i: int| 0 <= i < r@.len() ==> prebuild_from_item(#[trigger] r@[i], kept_prebuild_items(items@)[i]),
{
    let mut out: Vec<WeavePrebuild> = Vec::new();
    let mut i: usize = 0;
    while i < items.len()
        invariant
            i <= items@.len(),
            out@.len() == kept_prebuild_items(items@.take(i as int)).len(),
            forall|j: int| 0 <= j < out@.len() ==> prebuild_from_item(#[trigger] out@[j], kept_prebuild_items(items@.take(i as int))[j]),
        decreases items@.len() - i,
    {
        assert(items@.take(i + 1).drop_last() =~= items@.take(i as int));
        let item = &items[i];
        let url = match item.text_at("url") {
            Some(u) => u,
            None => String::new(),
        };
        let output = match item.text_at("output") {
            Some(o) => o,
            None => String::new(),
        };
        let integrity = match item.text_at("integrity") {
            Some(x) => x,
            None => String::new(),
        };
        proof {
            reveal_strlit("");
        }
        if !url.as_str().is_empty() && !output.as_str().is_empty() {
            out.push(
                WeavePrebuild {
                    url,
                    integrity,
                    output,
                    node_abi: item.text_at("node_abi"),
                    os: item.text_at("os"),
                    cpu: item.text_at("cpu"),
                },
            );
        }
        i += 1;
    }
    assert(items@.take(items@.len() as int) =~= items@);
    out
}

fn napi_versions_of(items: &Vec<JsonValue>) -> (r: Vec<u32>)
    ensures
        r@ == napi_numbers(items@),
{
    let mut out: Vec<u32> = Vec::new();
    let mut i: usize = 0;
    while i < items.len()
        invariant
            i <= items@.len(),
            out@ == napi_numbers(items@.take(i as int)),
        decreases items@.len() - i,
    {
        assert(items@.take(i + 1).drop_last() =~= items@.take(i as int));
        if let JsonValue::Number(Some(n)) = &items[i] {
            out.push((*n % 0x1_0000_0000) as u32);
        }
        i += 1;
    }
    assert(items@.take(items@.len() as int) =~= items@);
    out
}

fn any_runs_prebuild_install(scripts: &TextMap<String>) -> (r: bool)
    ensures
        r == any_prebuild_install(*scripts),
{
    let mut i: usize = 0;
    while i < scripts.len()
        invariant
            i <= scripts.spec_entries().len(),
            forall|j: int| 0 <= j < i ==> !runs_prebuild_install(#[trigger] scripts.spec_entries()[j].1),
        decreases scripts.spec_entries().len() - i,
    {
        let body = crate::text::lower_chars(&chars_of(scripts.value_at(i).as_str()));
        if crate::text::contains_chars(&body, &chars_of("prebuild-install")) || crate::text::contains_chars(
            &body,
            &chars_of("prebuild --install"),
        ) {
            return true;
        }
        i += 1;
    }
    false
}

/// What prebuild resolution reads of a parsed `package.json`.
pub fn prebuild_meta_of(v: &JsonValue) -> (r: PrebuildMeta)
    ensures
        opt_view(r.name) == json_text(json_get(*v, "name"@)),
        opt_view(r.version) == json_text(json_get(*v, "version"@)),
        r.scripts.wf(),
        forall|q: Seq<char>| #[trigger] r.scripts.spec_get(q) == json_text_map(json_get(*v, "scripts"@), q),
        r.has_prebuild_install_script == any_prebuild_install(r.scripts),
        match json_get(*v, "binary"@) {
            None => r.binary.is_none(),
            Some(b) => r.binary matches Some(m) && opt_view(m.module_name) == json_text(json_get(b, "module_name"@))
                && opt_view(m.module_dir) == json_text(json_get(b, "module_path"@)) && opt_view(m.remote_path)
                == json_text(json_get(b, "remote_path"@)) && opt_view(m.package_name) == json_text(
                json_get(b, "package_name"@),
            ) && opt_view(m.host) == json_text(json_get(b, "host"@)),
        },
        r.weave_prebuilds@.len() == kept_prebuild_items(prebuild_items(*v)).len(),
        forall|i: int|
            0 <= i < r.weave_prebuilds@.len() ==> prebuild_from_item(
                #[trigger] r.weave_prebuilds@[i],
                kept_prebuild_items(prebuild_items(*v))[i],
            ),
        r.napi_versions@ == napi_numbers(napi_items(*v)),
{
    let scripts = v.text_map_at("scripts");
    let has = any_runs_prebuild_install(&scripts);
    let binary = match v.get("binary") {
        Some(b) => Some(
            BinaryMeta {
                module_name: b.text_at("module_name"),
                module_dir: b.text_at("module_path"),
                remote_path: b.text_at("remote_path"),
                package_name: b.text_at("package_name"),
                host: b.text_at("host"),
            },
        ),
        None => None,
    };
    let empty: Vec<JsonValue> = Vec::new();
    let prebuild_arr = match v.get("weave") {
        Some(w) => match w.get("prebuildFetches") {
            Some(JsonValue::Array(a)) => a,
            _ => &empty,
        },
        None => &empty,
    };
    let weave_prebuilds = weave_prebuilds_of(prebuild_arr);
    let nested = match v.get("binary") {
        Some(b) => match b.get("napi_versions") {
            Some(JsonValue::Array(a)) => Some(a),
            _ => None,
        },
        None => None,
    };
    let napi_arr = match nested {
        Some(a) => a,
        None => match v.get("napi_versions") {
            Some(JsonValue::Array(a)) => a,
            _ => &empty,
        },
    };
    let napi_versions = napi_versions_of(napi_arr);
    PrebuildMeta {
        name: v.text_at("name"),
        version: v.text_at("version"),
        scripts,
        binary,
        weave_prebuilds,
        has_prebuild_install_script: has,
        napi_versions,
    }
}

/// The files of a package directory that prebuild resolution reads.
#[derive(Debug)]
pub struct PrebuildFiles {
    /// Final component of the package directory (name fallback).
    pub dir_name: Option<String>,
    /// `install.js` text when readable.
    pub install_js: Option<String>,
    /// `scripts/install.js` text when readable.
    pub scripts_install_js: Option<String>,
    /// A `prebuilds/` directory exists.
    pub has_prebuilds_dir: bool,
}

/// `o`, or `d` when absent.
pub open spec fn or_default(o: Option<Seq<char>>, d: Seq<char>) -> Seq<char> {
    match o {
        Some(s) => s,
        None => d,
    }
}

/// An author entry names both a URL and an output.
pub open spec fn usable(w: WeavePrebuild) -> bool {
    w.url@.len() > 0 && w.output@.len() > 0
}

/// The author entries that name both a URL and an output, in order.
pub open spec fn usable_prebuilds(ws: Seq<WeavePrebuild>) -> Seq<WeavePrebuild>
    decreases ws.len(),
{
    if ws.len() == 0 {
        Seq::empty()
    } else if usable(ws.last()) {
        usable_prebuilds(ws.drop_last()).push(ws.last())
    } else {
        usable_prebuilds(ws.drop_last())
    }
}

/// Keep the author entries that name both a URL and an output.
pub fn keep_usable(ws: Vec<WeavePrebuild>) -> (r: Vec<WeavePrebuild>)
    ensures
        r@ == usable_prebuilds(ws@),
{
    let ghost orig = ws@;
    let mut src = ws;
    let total = src.len();
    let mut out: Vec<WeavePrebuild> = Vec::new();
    let mut k: usize = 0;
    assert(orig.take(0) =~= Seq::<WeavePrebuild>::empty());
    assert(orig.skip(0) =~= orig);
    while src.len() > 0
        invariant
            k <= orig.len(),
            orig.len() == total,
            src@ == orig.skip(k as int),
            out@ == usable_prebuilds(orig.take(k as int)),
        decreases src@.len(),
    {
        let x = src.remove(0);
        assert(x == orig[k as int]);
        assert(src@ =~= orig.skip(k + 1));
        assert(orig.take(k + 1).drop_last() =~= orig.take(k as int));
        if !x.url.as_str().is_empty() && !x.output.as_str().is_empty() {
            out.push(x);
        }
        k += 1;
    }
    assert(orig.take(k as int) =~= orig);
    out
}

/// Some script body mentions prebuild-install.
pub open spec fn install_hint(vals: Seq<Seq<char>>) -> bool {
    exists|i: int|
        0 <= i < vals.len() && (has_sub(lower(#[trigger] vals[i]), "prebuild-install"@) || has_sub(
            lower(vals[i]),
            "prebuild --install"@,
        ))
}

/// Some script body mentions prebuild, node-pre-gyp or a download.
pub open spec fn download_hint(vals: Seq<Seq<char>>) -> bool {
    exists|i: int|
        0 <= i < vals.len() && (has_sub(lower(#[trigger] vals[i]), "prebuild"@) || has_sub(
            lower(vals[i]),
            "node-pre-gyp"@,
        ) || has_sub(lower(vals[i]), "download"@))
}

/// The script bodies of `m`, in key order.
pub open spec fn script_values(m: TextMap<String>) -> Seq<Seq<char>> {
    m.spec_entries().map_values(|e: (Seq<char>, Seq<char>)| e.1)
}

/// Whether some script runs prebuild-install.
pub fn prebuild_install_hint(scripts: &TextMap<String>) -> (r: bool)
    ensures
        r == install_hint(script_values(*scripts)),
{
    let mut i: usize = 0;
    while i < scripts.len()
        invariant
            i <= scripts.spec_entries().len(),
            forall|j: int|
                0 <= j < i ==> !(has_sub(lower(#[trigger] script_values(*scripts)[j]), "prebuild-install"@)
                    || has_sub(lower(script_values(*scripts)[j]), "prebuild --install"@)),
        decreases scripts.spec_entries().len() - i,
    {
        let l = crate::text::lower_chars(&chars_of(scripts.value_at(i).as_str()));
        assert(script_values(*scripts)[i as int] == scripts.spec_entries()[i as int].1);
        if crate::text::contains_chars(&l, &chars_of("prebuild-install")) || crate::text::contains_chars(
            &l,
            &chars_of("prebuild --install"),
        ) {
            return true;
        }
        i += 1;
    }
    false
}

fn download_hint_of(scripts: &TextMap<String>) -> (r: bool)
    ensures
        r == download_hint(script_values(*scripts)),
{
    let mut i: usize = 0;
    while i < scripts.len()
        invariant
            i <= scripts.spec_entries().len(),
            forall|j: int|
                0 <= j < i ==> !(has_sub(lower(#[trigger] script_values(*scripts)[j]), "prebuild"@)
                    || has_sub(lower(script_values(*scripts)[j]), "node-pre-gyp"@) || has_sub(
                    lower(script_values(*scripts)[j]),
                    "download"@,
                )),
        decreases scripts.spec_entries().len() - i,
    {
        let l = crate::text::lower_chars(&chars_of(scripts.value_at(i).as_str()));
        assert(script_values(*scripts)[i as int] == scripts.spec_entries()[i as int].1);
        if crate::text::contains_chars(&l, &chars_of("prebuild")) || crate::text::contains_chars(
            &l,
            &chars_of("node-pre-gyp"),
        ) || crate::text::contains_chars(&l, &chars_of("download")) {
            return true;
        }
        i += 1;
    }
    false
}

/// A requirement with status `Opaque` and no host.
pub open spec fn base_model(
    package: Seq<char>,
    pattern: PrebuildPatternKind,
    url: Option<Seq<char>>,
    output: Option<Seq<char>>,
    integrity: Option<Seq<char>>,
    node_abi: Seq<char>,
    os: Seq<char>,
    cpu: Seq<char>,
    tokens: Seq<Seq<char>>,
    reason: Seq<char>,
) -> RequirementModel {
    RequirementModel {
        package,
        pattern,
        status: PrebuildResolveStatus::Opaque,
        url,
        host: None,
        output,
        integrity,
        node_abi: Some(node_abi),
        os: Some(os),
        cpu: Some(cpu),
        unresolved_tokens: tokens,
        reason,
    }
}

fn no_tokens() -> (r: Vec<String>)
    ensures
        r.deep_view() == Seq::<Seq<char>>::empty(),
{
    let r: Vec<String> = Vec::new();
    assert(r.deep_view() =~= Seq::<Seq<char>>::empty());
    r
}

fn base_req(
    package: &str,
    pattern: PrebuildPatternKind,
    url: Option<String>,
    output: Option<String>,
    integrity: Option<String>,
    node_abi: &str,
    os: &str,
    cpu: &str,
    tokens: Vec<String>,
    reason: String,
) -> (r: NativePrebuildRequirement)
    ensures
        r@ == base_model(
            package@,
            pattern,
            opt_view(url),
            opt_view(output),
            opt_view(integrity),
            node_abi@,
            os@,
            cpu@,
            tokens.deep_view(),
            reason@,
        ),
{
    NativePrebuildRequirement {
        package: own(package),
        pattern,
        status: PrebuildResolveStatus::Opaque,
        url,
        host: None,
        output,
        integrity,
        node_abi: Some(own(node_abi)),
        os: Some(own(os)),
        cpu: Some(own(cpu)),
        unresolved_tokens: tokens,
        reason,
    }
}

/// Requirement from an author entry.
pub open spec fn weave_model(package: Seq<char>, w: WeavePrebuild, cfg: ExecutionConfig, host: HostPlatform, abi: Seq<char>) -> RequirementModel {
    finalize_model(
        base_model(
            package,
            PrebuildPatternKind::PackageWeavePrebuild,
            Some(w.url@),
            Some(w.output@),
            if w.integrity@.len() == 0 {
                None
            } else {
                Some(w.integrity@)
            },
            or_default(opt_view(w.node_abi), abi),
            or_default(opt_view(w.os), host.os@),
            or_default(opt_view(w.cpu), host.cpu@),
            Seq::empty(),
            Seq::empty(),
        ),
        cfg,
    )
}

fn or_str(o: &Option<String>, d: &str) -> (r: String)
    ensures
        r@ == or_default(opt_view(*o), d@),
{
    match o {
        Some(s) => own(s.as_str()),
        None => own(d),
    }
}

fn from_weave_prebuild(package: &str, w: &WeavePrebuild, cfg: &ExecutionConfig, host: &HostPlatform, node_abi: &str) -> (r: NativePrebuildRequirement)
    ensures
        r@ == weave_model(package@, *w, *cfg, *host, node_abi@),
{
    let integrity = if w.integrity.as_str().is_empty() {
        None
    } else {
        Some(own(w.integrity.as_str()))
    };
    let mut req = base_req(
        package,
        PrebuildPatternKind::PackageWeavePrebuild,
        Some(own(w.url.as_str())),
        Some(own(w.output.as_str())),
        integrity,
        or_str(&w.node_abi, node_abi).as_str(),
        or_str(&w.os, host.os.as_str()).as_str(),
        or_str(&w.cpu, host.cpu.as_str()).as_str(),
        no_tokens(),
        String::new(),
    );
    proof {
        reveal_strlit("");
    }
    finalize_requirement(&mut req, cfg);
    req
}

/// node-pre-gyp adjustment of a finalized requirement.
pub open spec fn pregyp_adjust(f: RequirementModel) -> RequirementModel {
    let open_status = f.status == PrebuildResolveStatus::NeedsIntegrity || f.status
        == PrebuildResolveStatus::Suggestable;
    if f.unresolved_tokens.len() > 0 && open_status {
        RequirementModel {
            status: PrebuildResolveStatus::UnresolvedTokens,
            reason: "node-pre-gyp binary template still has unresolved tokens "@ + debug_list(
                f.unresolved_tokens,
            )
                + "; cannot emit a deterministic fetch entry — fill tokens or declare execution.prebuild.fetches manually"@,
            ..f
        }
    } else if f.integrity.is_none() && open_status {
        RequirementModel {
            status: PrebuildResolveStatus::NeedsIntegrity,
            reason: "node-pre-gyp pattern resolved to "@ + or_default(f.url, "?"@) + " → "@ + debug_opt(
                f.output,
            )
                + ", but integrity (SRI) is not present in package metadata — add integrity to execution.prebuild.fetches after verifying the artifact (lifecycle scripts still get no network)"@,
            ..f
        }
    } else {
        f
    }
}

/// Template values node-pre-gyp templates are filled with.
pub open spec fn pregyp_values(package: Seq<char>, meta: PrebuildMeta, host: HostPlatform, abi: Seq<char>) -> TokenValues {
    TokenValues {
        name: package,
        version: or_default(opt_view(meta.version), "0.0.0"@),
        platform: host.os@,
        arch: host.cpu@,
        node_abi: abi,
        napi_build_version: if meta.napi_versions@.len() > 0 {
            meta.napi_versions@[0] as nat
        } else {
            3
        },
        tool: "node-pre-gyp"@,
        tool_version: "1"@,
    }
}

/// Requirement from the node-pre-gyp `binary` field (none without `binary.host`).
pub open spec fn pregyp_model(package: Seq<char>, meta: PrebuildMeta, cfg: ExecutionConfig, host: HostPlatform, abi: Seq<char>) -> Option<RequirementModel> {
    match meta.binary {
        None => None,
        Some(b) => match b.host {
            None => None,
            Some(hu) => {
                let v = pregyp_values(package, meta, host, abi);
                let remote_r = substituted(or_default(opt_view(b.remote_path), ""@), v);
                let pkg_r = substituted(
                    or_default(opt_view(b.package_name), "{node_abi}-{platform}-{arch}.tar.gz"@),
                    v,
                );
                let mod_r = substituted(or_default(opt_view(b.module_dir), "./lib/binding/"@), v);
                let t1 = sorted_set(unresolved_in(remote_r) + unresolved_in(pkg_r));
                let tokens = sorted_set(t1 + unresolved_in(mod_r));
                let url = join_url_spec(hu@, remote_r + pkg_r);
                let output = crate::discovery::module_base(mod_r) + "/"@ + or_default(
                    opt_view(b.module_name),
                    package,
                ) + ".node"@;
                Some(
                    pregyp_adjust(
                        finalize_model(
                            base_model(
                                package,
                                PrebuildPatternKind::NodePreGypBinary,
                                Some(url),
                                Some(output),
                                None,
                                abi,
                                host.os@,
                                host.cpu@,
                                tokens,
                                Seq::empty(),
                            ),
                            cfg,
                        ),
                    ),
                )
            },
        },
    }
}

fn concat_strings(a: &Vec<String>, b: &Vec<String>) -> (r: Vec<String>)
    ensures
        r.deep_view() == a.deep_view() + b.deep_view(),
{
    let mut out: Vec<String> = Vec::new();
    let mut i: usize = 0;
    while i < a.len()
        invariant
            i <= a@.len(),
            out@.len() == i,
            forall|j: int| 0 <= j < i ==> #[trigger] out@[j]@ == a@[j]@,
        decreases a@.len() - i,
    {
        out.push(own(a[i].as_str()));
        i += 1;
    }
    let mut i: usize = 0;
    while i < b.len()
        invariant
            i <= b@.len(),
            out@.len() == a@.len() + i,
            forall|j: int| 0 <= j < a@.len() ==> #[trigger] out@[j]@ == a@[j]@,
            forall|j: int| 0 <= j < i ==> #[trigger] out@[a@.len() + j]@ == b@[j]@,
        decreases b@.len() - i,
    {
        out.push(own(b[i].as_str()));
        i += 1;
    }
    assert(out.deep_view() =~= a.deep_view() + b.deep_view()) by {
        assert forall|j: int| 0 <= j < out@.len() implies out.deep_view()[j] == (a.deep_view()
            + b.deep_view())[j] by {
            if j >= a@.len() {
                assert(out@[a@.len() + (j - a@.len())]@ == b@[j - a@.len()]@);
            }
        }
    }
    out
}

fn from_node_pre_gyp(package: &str, meta: &PrebuildMeta, cfg: &ExecutionConfig, host: &HostPlatform, node_abi: &str) -> (r: Option<NativePrebuildRequirement>)
    ensures
        match (r, pregyp_model(package@, *meta, *cfg, *host, node_abi@)) {
            (Some(a), Some(b)) => a@ == b,
            (None, None) => true,
            _ => false,
        },
{
    let b = match &meta.binary {
        Some(b) => b,
        None => {
            return None;
        },
    };
    let host_url = match &b.host {
        Some(h) => h,
        None => {
            return None;
        },
    };
    let napi: u32 = if meta.napi_versions.len() > 0 {
        meta.napi_versions[0]
    } else {
        3
    };
    let ctx = TokenContext {
        name: own(package),
        version: or_str(&meta.version, "0.0.0"),
        platform: own(host.os.as_str()),
        arch: own(host.cpu.as_str()),
        node_abi: own(node_abi),
        napi_build_version: napi,
        tool: own("node-pre-gyp"),
        tool_version: own("1"),
    };
    assert(ctx@ == pregyp_values(package@, *meta, *host, node_abi@));
    let (remote_r, tk1) = substitute_tokens(or_str(&b.remote_path, "").as_str(), &ctx);
    let (pkg_r, tk2) = substitute_tokens(
        or_str(&b.package_name, "{node_abi}-{platform}-{arch}.tar.gz").as_str(),
        &ctx,
    );
    let t1 = sort_dedup(&concat_strings(&tk1, &tk2));
    let mut path = chars_of(remote_r.as_str());
    extend_str(&mut path, pkg_r.as_str());
    let url = join_url(host_url.as_str(), string_of(&path).as_str());
    let (mod_r, tk3) = substitute_tokens(or_str(&b.module_dir, "./lib/binding/").as_str(), &ctx);
    let tokens = sort_dedup(&concat_strings(&t1, &tk3));
    let mc = chars_of(mod_r.as_str());
    let t = crate::text::trim_start_matches_chars(&mc, &chars_of("./"));
    let mut out = crate::text::trim_end_matches_chars(&t, &chars_of("/"));
    extend_str(&mut out, "/");
    extend_str(&mut out, or_str(&b.module_name, package).as_str());
    extend_str(&mut out, ".node");
    let mut req = base_req(
        package,
        PrebuildPatternKind::NodePreGypBinary,
        Some(url),
        Some(string_of(&out)),
        None,
        node_abi,
        host.os.as_str(),
        host.cpu.as_str(),
        tokens,
        String::new(),
    );
    proof {
        reveal_strlit("");
    }
    finalize_requirement(&mut req, cfg);
    let open_status = req.status == PrebuildResolveStatus::NeedsIntegrity || req.status
        == PrebuildResolveStatus::Suggestable;
    if req.unresolved_tokens.len() > 0 && open_status {
        req.status = PrebuildResolveStatus::UnresolvedTokens;
        let mut m = chars_of("node-pre-gyp binary template still has unresolved tokens ");
        extend_str(&mut m, crate::discovery::debug_names(&req.unresolved_tokens).as_str());
        extend_str(&mut m, "; cannot emit a deterministic fetch entry — fill tokens or declare execution.prebuild.fetches manually");
        req.reason = string_of(&m);
    } else if req.integrity.is_none() && open_status {
        req.status = PrebuildResolveStatus::NeedsIntegrity;
        let mut m = chars_of("node-pre-gyp pattern resolved to ");
        extend_str(&mut m, or_str(&req.url, "?").as_str());
        extend_str(&mut m, " → ");
        extend_str(&mut m, debug_opt_str(&req.output).as_str());
        extend_str(&mut m, ", but integrity (SRI) is not present in package metadata — add integrity to execution.prebuild.fetches after verifying the artifact (lifecycle scripts still get no network)");
        req.reason = string_of(&m);
    }
    Some(req)
}

/// Requirement for a prebuild-install layout.
pub open spec fn layout_model(package: Seq<char>, meta: PrebuildMeta, host: HostPlatform, abi: Seq<char>) -> RequirementModel {
    let output = "prebuilds/"@ + host.os@ + "-"@ + host.cpu@ + "/node.napi.node"@;
    base_model(
        package,
        PrebuildPatternKind::PrebuildInstallLayout,
        None,
        Some(output),
        None,
        abi,
        host.os@,
        host.cpu@,
        Seq::empty(),
        "prebuild-install layout expects output "@ + debug_quoted(output) + " for "@ + host.os@
            + "/"@ + host.cpu@ + " abi="@ + abi
            + ", but no concrete HTTPS download URL was found in package metadata — declare url+integrity in execution.prebuild.fetches (version="@
            + debug_opt(opt_view(meta.version)) + ")"@,
    )
}

fn from_prebuild_install_layout(package: &str, meta: &PrebuildMeta, host: &HostPlatform, node_abi: &str) -> (r: NativePrebuildRequirement)
    ensures
        r@ == layout_model(package@, *meta, *host, node_abi@),
{
    let mut out = chars_of("prebuilds/");
    extend_str(&mut out, host.os.as_str());
    extend_str(&mut out, "-");
    extend_str(&mut out, host.cpu.as_str());
    extend_str(&mut out, "/node.napi.node");
    let output = string_of(&out);
    let mut m = chars_of("prebuild-install layout expects output ");
    extend_str(&mut m, debug_str(output.as_str()).as_str());
    extend_str(&mut m, " for ");
    extend_str(&mut m, host.os.as_str());
    extend_str(&mut m, "/");
    extend_str(&mut m, host.cpu.as_str());
    extend_str(&mut m, " abi=");
    extend_str(&mut m, node_abi);
    extend_str(&mut m, ", but no concrete HTTPS download URL was found in package metadata — declare url+integrity in execution.prebuild.fetches (version=");
    extend_str(&mut m, debug_opt_str(&meta.version).as_str());
    extend_str(&mut m, ")");
    let r = base_req(
        package,
        PrebuildPatternKind::PrebuildInstallLayout,
        None,
        Some(output),
        None,
        node_abi,
        host.os.as_str(),
        host.cpu.as_str(),
        no_tokens(),
        string_of(&m),
    );
    r
}

/// Integrity an author entry gives for `url` (first entry with that URL).
pub open spec fn literal_integrity(ws: Seq<WeavePrebuild>, url: Seq<char>) -> Option<Seq<char>>
    decreases ws.len(),
{
    if ws.len() == 0 {
        None
    } else if ws[0].url@ == url {
        if ws[0].integrity@.len() > 0 {
            Some(ws[0].integrity@)
        } else {
            None
        }
    } else {
        literal_integrity(ws.skip(1), url)
    }
}

/// Requirement from an HTTPS literal in install script text.
pub open spec fn literal_model(package: Seq<char>, url: Seq<char>, cfg: ExecutionConfig, host: HostPlatform, abi: Seq<char>, meta: PrebuildMeta) -> RequirementModel {
    let f = crate::text::after_last_char(url, '/');
    let output = if crate::text::ends_with(f, ".node"@) {
        Some("prebuilds/"@ + f)
    } else {
        None
    };
    let m = finalize_model(
        base_model(
            package,
            PrebuildPatternKind::InstallScriptHttpsLiteral,
            Some(url),
            output,
            literal_integrity(meta.weave_prebuilds@, url),
            abi,
            host.os@,
            host.cpu@,
            Seq::empty(),
            Seq::empty(),
        ),
        cfg,
    );
    if m.output.is_none() && m.status != PrebuildResolveStatus::BlockedUnsafe && m.status
        != PrebuildResolveStatus::Configured {
        RequirementModel {
            status: PrebuildResolveStatus::Opaque,
            reason: "install script references "@ + url
                + ", but the sealed relative output path cannot be determined statically (archive or non-.node URL) — declare output+integrity manually; scripts still receive no network"@,
            ..m
        }
    } else {
        m
    }
}

fn find_integrity(ws: &Vec<WeavePrebuild>, url: &str) -> (r: Option<String>)
    ensures
        opt_view(r) == literal_integrity(ws@, url@),
{
    let mut i: usize = 0;
    assert(ws@.skip(0) =~= ws@);
    while i < ws.len()
        invariant
            i <= ws@.len(),
            literal_integrity(ws@, url@) == literal_integrity(ws@.skip(i as int), url@),
        decreases ws@.len() - i,
    {
        assert(ws@.skip(i as int)[0] == ws@[i as int]);
        assert(ws@.skip(i as int).skip(1) =~= ws@.skip(i + 1));
        if str_eq(ws[i].url.as_str(), url) {
            if ws[i].integrity.as_str().is_empty() {
                return None;
            }
            return Some(own(ws[i].integrity.as_str()));
        }
        i += 1;
    }
    None
}

fn from_https_literal(package: &str, url: &str, cfg: &ExecutionConfig, host: &HostPlatform, node_abi: &str, meta: &PrebuildMeta) -> (r: NativePrebuildRequirement)
    ensures
        r@ == literal_model(package@, url@, *cfg, *host, node_abi@, *meta),
{
    let f = crate::text::after_last_char_chars(&chars_of(url), '/');
    let output = if crate::text::ends_with_chars(&f, &chars_of(".node")) {
        let mut o = chars_of("prebuilds/");
        crate::text::extend_chars(&mut o, &f);
        Some(string_of(&o))
    } else {
        None
    };
    let mut req = base_req(
        package,
        PrebuildPatternKind::InstallScriptHttpsLiteral,
        Some(own(url)),
        output,
        find_integrity(&meta.weave_prebuilds, url),
        node_abi,
        host.os.as_str(),
        host.cpu.as_str(),
        no_tokens(),
        String::new(),
    );
    proof {
        reveal_strlit("");
    }
    finalize_requirement(&mut req, cfg);
    if req.output.is_none() && req.status != PrebuildResolveStatus::BlockedUnsafe && req.status
        != PrebuildResolveStatus::Configured {
        req.status = PrebuildResolveStatus::Opaque;
        let mut m = chars_of("install script references ");
        extend_str(&mut m, url);
        extend_str(&mut m, ", but the sealed relative output path cannot be determined statically (archive or non-.node URL) — declare output+integrity manually; scripts still receive no network");
        req.reason = string_of(&m);
    }
    req
}

/// Requirement from a well-known package name (esbuild-like, sharp-like).
pub open spec fn heuristic_model(package: Seq<char>, meta: PrebuildMeta, cfg: ExecutionConfig, host: HostPlatform, abi: Seq<char>) -> Option<RequirementModel> {
    let name = lower(package);
    if name == "esbuild"@ || crate::text::starts_with(name, "@esbuild/"@) {
        Some(
            finalize_model(
                base_model(
                    package,
                    PrebuildPatternKind::KnownPackagePattern,
                    None,
                    Some("bin/esbuild"@),
                    None,
                    abi,
                    host.os@,
                    host.cpu@,
                    Seq::empty(),
                    "esbuild-like package typically downloads a platform binary into bin/esbuild during postinstall (version="@
                        + debug_opt(opt_view(meta.version))
                        + "); no concrete allowlisted URL+SRI in metadata — declare execution.prebuild.fetches after reviewing the release artifact"@,
                ),
                cfg,
            ),
        )
    } else if name == "sharp"@ || crate::text::ends_with(name, "/sharp"@) {
        Some(
            RequirementModel {
                host: Some("github.com"@),
                ..base_model(
                    package,
                    PrebuildPatternKind::KnownPackagePattern,
                    None,
                    None,
                    None,
                    abi,
                    host.os@,
                    host.cpu@,
                    seq!["vendor_url"@, "libvips_version"@],
                    "sharp downloads libvips/vendor binaries via install; URL selection is dynamic — Weave will not grant the install script network; declare explicit prebuild.fetches for the exact vendor tarball if required"@,
                )
            },
        )
    } else {
        None
    }
}

fn known_package_heuristic(package: &str, meta: &PrebuildMeta, cfg: &ExecutionConfig, host: &HostPlatform, node_abi: &str) -> (r: Option<NativePrebuildRequirement>)
    ensures
        match (r, heuristic_model(package@, *meta, *cfg, *host, node_abi@)) {
            (Some(a), Some(b)) => a@ == b,
            (None, None) => true,
            _ => false,
        },
{
    let name = string_of(&crate::text::lower_chars(&chars_of(package)));
    if str_eq(name.as_str(), "esbuild") || crate::text::str_starts_with(name.as_str(), "@esbuild/") {
        let mut m = chars_of("esbuild-like package typically downloads a platform binary into bin/esbuild during postinstall (version=");
        extend_str(&mut m, debug_opt_str(&meta.version).as_str());
        extend_str(&mut m, "); no concrete allowlisted URL+SRI in metadata — declare execution.prebuild.fetches after reviewing the release artifact");
        let mut req = base_req(
            package,
            PrebuildPatternKind::KnownPackagePattern,
            None,
            Some(own("bin/esbuild")),
            None,
            node_abi,
            host.os.as_str(),
            host.cpu.as_str(),
            no_tokens(),
            string_of(&m),
        );
            finalize_requirement(&mut req, cfg);
        return Some(req);
    }
    if str_eq(name.as_str(), "sharp") || crate::text::str_ends_with(name.as_str(), "/sharp") {
        let mut tokens: Vec<String> = Vec::new();
        tokens.push(own("vendor_url"));
        tokens.push(own("libvips_version"));
        assert(tokens.deep_view() =~= seq!["vendor_url"@, "libvips_version"@]);
        let mut req = base_req(
            package,
            PrebuildPatternKind::KnownPackagePattern,
            None,
            None,
            None,
            node_abi,
            host.os.as_str(),
            host.cpu.as_str(),
            tokens,
            own("sharp downloads libvips/vendor binaries via install; URL selection is dynamic — Weave will not grant the install script network; declare explicit prebuild.fetches for the exact vendor tarball if required"),
        );
        req.host = Some(own("github.com"));
        return Some(req);
    }
    None
}

// ---------------------------------------------------------------------------
// Resolution report
// ---------------------------------------------------------------------------

/// Per-package native prebuild resolution report.
#[derive(Debug, PartialEq, Eq)]
pub struct NativePrebuildReport {
    /// Package name.
    pub package: String,
    /// Package version when known.
    pub version: Option<String>,
    /// Detected requirements.
    pub requirements: Vec<NativePrebuildRequirement>,
    /// True when any requirement still blocks completeness without policy.
    pub needs_manual_policy: bool,
}

/// Requirements by their plain values.
pub open spec fn req_views(s: Seq<NativePrebuildRequirement>) -> Seq<RequirementModel> {
    s.map_values(|r: NativePrebuildRequirement| r@)
}

/// Requirements from the author entries, in order.
pub open spec fn weave_models(package: Seq<char>, ws: Seq<WeavePrebuild>, cfg: ExecutionConfig, host: HostPlatform, abi: Seq<char>) -> Seq<RequirementModel>
    decreases ws.len(),
{
    if ws.len() == 0 {
        Seq::empty()
    } else {
        weave_models(package, ws.drop_last(), cfg, host, abi).push(
            weave_model(package, ws.last(), cfg, host, abi),
        )
    }
}

/// Requirements from HTTPS literals, in order.
pub open spec fn literal_models(package: Seq<char>, urls: Seq<Seq<char>>, cfg: ExecutionConfig, host: HostPlatform, abi: Seq<char>, meta: PrebuildMeta) -> Seq<RequirementModel>
    decreases urls.len(),
{
    if urls.len() == 0 {
        Seq::empty()
    } else {
        literal_models(package, urls.drop_last(), cfg, host, abi, meta).push(
            literal_model(package, urls.last(), cfg, host, abi, meta),
        )
    }
}

/// Requirements from the HTTPS literals of each text, text by text.
pub open spec fn texts_literal_models(package: Seq<char>, texts: Seq<Seq<char>>, cfg: ExecutionConfig, host: HostPlatform, abi: Seq<char>, meta: PrebuildMeta) -> Seq<RequirementModel>
    decreases texts.len(),
{
    if texts.len() == 0 {
        Seq::empty()
    } else {
        texts_literal_models(package, texts.drop_last(), cfg, host, abi, meta) + literal_models(
            package,
            sorted_set(https_literals(texts.last())),
            cfg,
            host,
            abi,
            meta,
        )
    }
}

/// An optional requirement as a sequence.
pub open spec fn opt_seq(o: Option<RequirementModel>) -> Seq<RequirementModel> {
    match o {
        Some(m) => seq![m],
        None => Seq::empty(),
    }
}

/// The texts of the install entry points that were read.
pub open spec fn entry_texts(files: PrebuildFiles) -> Seq<Seq<char>> {
    (match opt_view(files.install_js) {
        Some(t) => seq![t],
        None => Seq::empty(),
    }) + (match opt_view(files.scripts_install_js) {
        Some(t) => seq![t],
        None => Seq::empty(),
    })
}

/// Every requirement detected, in detection order.
pub open spec fn detected_models(package: Seq<char>, meta: PrebuildMeta, files: PrebuildFiles, cfg: ExecutionConfig, host: HostPlatform, abi: Seq<char>) -> Seq<RequirementModel> {
    let a = weave_models(package, meta.weave_prebuilds@, cfg, host, abi) + opt_seq(
        pregyp_model(package, meta, cfg, host, abi),
    ) + (if meta.has_prebuild_install_script || files.has_prebuilds_dir {
        seq![layout_model(package, meta, host, abi)]
    } else {
        Seq::empty()
    }) + texts_literal_models(package, entry_texts(files), cfg, host, abi, meta)
        + texts_literal_models(package, script_values(meta.scripts), cfg, host, abi, meta);
    if a.len() == 0 {
        opt_seq(heuristic_model(package, meta, cfg, host, abi))
    } else {
        a
    }
}

/// The text a requirement is ordered by for an optional field.
pub open spec fn key_text(o: Option<Seq<char>>) -> Seq<char> {
    or_default(o, Seq::empty())
}

/// Requirement order: pattern, then URL, then output.
pub open spec fn key_lt(a: RequirementModel, b: RequirementModel) -> bool {
    pattern_rank(a.pattern) < pattern_rank(b.pattern) || (pattern_rank(a.pattern) == pattern_rank(
        b.pattern,
    ) && (lex_lt(key_text(a.url), key_text(b.url)) || (key_text(a.url) == key_text(b.url)
        && lex_lt(key_text(a.output), key_text(b.output)))))
}

/// `x` placed before the first element ordered after it.
pub open spec fn insert_stable(s: Seq<RequirementModel>, x: RequirementModel) -> Seq<RequirementModel>
    decreases s.len(),
{
    if s.len() == 0 {
        seq![x]
    } else if key_lt(x, s[0]) {
        seq![x] + s
    } else {
        seq![s[0]] + insert_stable(s.skip(1), x)
    }
}

/// `s` in requirement order, equal elements in their original order.
pub open spec fn stable_sort(s: Seq<RequirementModel>) -> Seq<RequirementModel>
    decreases s.len(),
{
    if s.len() == 0 {
        Seq::empty()
    } else {
        insert_stable(stable_sort(s.drop_last()), s.last())
    }
}

/// Two requirements name the same URL, output and pattern.
pub open spec fn same_req(a: RequirementModel, b: RequirementModel) -> bool {
    a.url == b.url && a.output == b.output && a.pattern == b.pattern
}

/// `s` without elements that repeat the last one kept.
pub open spec fn dedup_reqs(s: Seq<RequirementModel>) -> Seq<RequirementModel>
    decreases s.len(),
{
    if s.len() == 0 {
        Seq::empty()
    } else {
        let d = dedup_reqs(s.drop_last());
        if d.len() > 0 && same_req(s.last(), d.last()) {
            d
        } else {
            d.push(s.last())
        }
    }
}

/// Whether the package needs manual prebuild policy.
pub open spec fn needs_manual(reqs: Seq<RequirementModel>, meta: PrebuildMeta) -> bool {
    (exists|i: int|
        0 <= i < reqs.len() && #[trigger] reqs[i].status != PrebuildResolveStatus::Configured
            && reqs[i].status != PrebuildResolveStatus::Suggestable) || (reqs.len() == 0 && (
    meta.binary.is_some() || meta.has_prebuild_install_script || download_hint(
        script_values(meta.scripts),
    )))
}

/// The requirement recorded when downloads are hinted but nothing concrete was found.
pub open spec fn fallback_model(package: Seq<char>, host: HostPlatform, abi: Seq<char>) -> RequirementModel {
    base_model(
        package,
        PrebuildPatternKind::KnownPackagePattern,
        None,
        None,
        None,
        abi,
        host.os@,
        host.cpu@,
        Seq::empty(),
        "install/native download behavior detected but no concrete HTTPS URL, output path, and integrity could be established statically — declare execution.prebuild.fetches manually"@,
    )
}

/// Package name of a report: package.json `name`, else the directory name.
pub open spec fn report_package(meta: PrebuildMeta, files: PrebuildFiles) -> Seq<char> {
    match meta.name {
        Some(n) => n@,
        None => or_default(opt_view(files.dir_name), "unknown"@),
    }
}

/// Inserting at the first position ordered after `x` is `insert_stable`.
pub proof fn lemma_insert_stable_at(s: Seq<RequirementModel>, x: RequirementModel, p: int)
    requires
        0 <= p <= s.len(),
        forall|q: int| 0 <= q < p ==> !key_lt(x, #[trigger] s[q]),
        p == s.len() || key_lt(x, s[p]),
    ensures
        insert_stable(s, x) == s.insert(p, x),
    decreases p,
{
    if p == 0 {
        assert(s.insert(0, x) =~= seq![x] + s);
        if s.len() == 0 {
            assert(seq![x] + s =~= seq![x]);
        }
    } else {
        assert(!key_lt(x, s[0]));
        lemma_insert_stable_at(s.skip(1), x, p - 1);
        assert(seq![s[0]] + s.skip(1).insert(p - 1, x) =~= s.insert(p, x));
    }
}

fn rank(p: PrebuildPatternKind) -> (r: u8)
    ensures
        r as int == pattern_rank(p),
{
    match p {
        PrebuildPatternKind::NodePreGypBinary => 0,
        PrebuildPatternKind::PrebuildInstallLayout => 1,
        PrebuildPatternKind::InstallScriptHttpsLiteral => 2,
        PrebuildPatternKind::PackageWeavePrebuild => 3,
        PrebuildPatternKind::KnownPackagePattern => 4,
    }
}

fn key_chars(o: &Option<String>) -> (r: Vec<char>)
    ensures
        r@ == key_text(opt_view(*o)),
{
    match o {
        Some(s) => chars_of(s.as_str()),
        None => Vec::new(),
    }
}

fn req_before(a: &NativePrebuildRequirement, b: &NativePrebuildRequirement) -> (r: bool)
    ensures
        r == key_lt(a@, b@),
{
    let ra = rank(a.pattern);
    let rb = rank(b.pattern);
    if ra != rb {
        return ra < rb;
    }
    let ua = key_chars(&a.url);
    let ub = key_chars(&b.url);
    let c = crate::textmap::lex_order(&ua, &ub);
    if c != 0 {
        return c < 0;
    }
    crate::textmap::lex_order(&key_chars(&a.output), &key_chars(&b.output)) < 0
}

fn opt_eq(a: &Option<String>, b: &Option<String>) -> (r: bool)
    ensures
        r == (opt_view(*a) == opt_view(*b)),
{
    match (a, b) {
        (Some(x), Some(y)) => str_eq(x.as_str(), y.as_str()),
        (None, None) => true,
        _ => false,
    }
}

fn sort_requirements(v: Vec<NativePrebuildRequirement>) -> (r: Vec<NativePrebuildRequirement>)
    ensures
        req_views(r@) == stable_sort(req_views(v@)),
{
    let ghost orig = req_views(v@);
    let mut src = v;
    let total = src.len();
    let mut out: Vec<NativePrebuildRequirement> = Vec::new();
    let mut k: usize = 0;
    assert(req_views(src@) =~= orig.skip(0));
    assert(req_views(out@) =~= stable_sort(orig.take(0)));
    while src.len() > 0
        invariant
            k <= orig.len(),
            orig.len() == total,
            req_views(src@) == orig.skip(k as int),
            req_views(out@) == stable_sort(orig.take(k as int)),
        decreases src@.len(),
    {
        let ghost sv = src@;
        assert(req_views(sv).len() == sv.len());
        assert(k < orig.len());
        let x = src.remove(0);
        proof {
            sv.remove_ensures(0);
            assert(x@ == req_views(sv)[0]);
            assert(req_views(sv)[0] == orig.skip(k as int)[0]);
            assert(x@ == orig[k as int]);
            assert forall|q: int| 0 <= q < src@.len() implies #[trigger] req_views(src@)[q]
                == orig.skip(k + 1)[q] by {
                assert(src@[q] == sv[q + 1]);
                assert(req_views(sv)[q + 1] == orig.skip(k as int)[q + 1]);
            }
            assert(req_views(src@) =~= orig.skip(k + 1));
        }
        let ghost ov = req_views(out@);
        let mut j: usize = 0;
        while j < out.len() && !req_before(&x, &out[j])
            invariant
                j <= out@.len(),
                ov == req_views(out@),
                forall|q: int| 0 <= q < j ==> !key_lt(x@, #[trigger] ov[q]),
            decreases out@.len() - j,
        {
            assert(ov[j as int] == out@[j as int]@);
            j += 1;
        }
        if j < out.len() {
            assert(ov[j as int] == out@[j as int]@);
        }
        proof {
            lemma_insert_stable_at(ov, x@, j as int);
            assert(orig.take(k + 1).drop_last() =~= orig.take(k as int));
            assert(orig.take(k + 1).last() == x@);
        }
        let ghost oo = out@;
        out.insert(j, x);
        proof {
            oo.insert_ensures(j as int, x);
            ov.insert_ensures(j as int, x@);
            assert(req_views(out@) =~= ov.insert(j as int, x@));
        }
        k += 1;
    }
    assert(orig.take(k as int) =~= orig);
    out
}

fn dedup_requirements(v: Vec<NativePrebuildRequirement>) -> (r: Vec<NativePrebuildRequirement>)
    ensures
        req_views(r@) == dedup_reqs(req_views(v@)),
{
    let ghost orig = req_views(v@);
    let mut src = v;
    let total = src.len();
    let mut out: Vec<NativePrebuildRequirement> = Vec::new();
    let mut k: usize = 0;
    assert(req_views(src@) =~= orig.skip(0));
    assert(req_views(out@) =~= dedup_reqs(orig.take(0)));
    while src.len() > 0
        invariant
            k <= orig.len(),
            orig.len() == total,
            req_views(src@) == orig.skip(k as int),
            req_views(out@) == dedup_reqs(orig.take(k as int)),
        decreases src@.len(),
    {
        let ghost sv = src@;
        assert(req_views(sv).len() == sv.len());
        assert(k < orig.len());
        let x = src.remove(0);
        proof {
            sv.remove_ensures(0);
            assert(x@ == req_views(sv)[0]);
            assert(req_views(sv)[0] == orig.skip(k as int)[0]);
            assert(x@ == orig[k as int]);
            assert forall|q: int| 0 <= q < src@.len() implies #[trigger] req_views(src@)[q]
                == orig.skip(k + 1)[q] by {
                assert(src@[q] == sv[q + 1]);
                assert(req_views(sv)[q + 1] == orig.skip(k as int)[q + 1]);
            }
            assert(req_views(src@) =~= orig.skip(k + 1));
        }
        assert(orig.take(k + 1).drop_last() =~= orig.take(k as int));
        assert(orig.take(k + 1).last() == x@);
        let n = out.len();
        let dup = if n > 0 {
            let last = &out[n - 1];
            assert(req_views(out@).last() == last@);
            opt_eq(&x.url, &last.url) && opt_eq(&x.output, &last.output) && x.pattern == last.pattern
        } else {
            false
        };
        if !dup {
            let ghost oo = out@;
            out.push(x);
            assert(req_views(out@) =~= req_views(oo).push(x@));
        }
        k += 1;
    }
    assert(orig.take(k as int) =~= orig);
    out
}

fn push_literals(
    reqs: &mut Vec<NativePrebuildRequirement>,
    package: &str,
    text: &str,
    cfg: &ExecutionConfig,
    host: &HostPlatform,
    node_abi: &str,
    meta: &PrebuildMeta,
)
    ensures
        req_views(final(reqs)@) == req_views(old(reqs)@) + literal_models(
            package@,
            sorted_set(https_literals(text@)),
            *cfg,
            *host,
            node_abi@,
            *meta,
        ),
{
    let urls = extract_https_literals(text);
    let ghost base = req_views(reqs@);
    let ghost us = urls.deep_view();
    let mut i: usize = 0;
    assert(req_views(reqs@) =~= base + literal_models(package@, us.take(0), *cfg, *host, node_abi@, *meta));
    while i < urls.len()
        invariant
            i <= urls@.len(),
            us == urls.deep_view(),
            req_views(reqs@) == base + literal_models(package@, us.take(i as int), *cfg, *host, node_abi@, *meta),
        decreases urls@.len() - i,
    {
        assert(us.take(i + 1).drop_last() =~= us.take(i as int));
        assert(us.take(i + 1).last() == urls@[i as int]@);
        let r = from_https_literal(package, urls[i].as_str(), cfg, host, node_abi, meta);
        let ghost before = reqs@;
        reqs.push(r);
        assert(req_views(reqs@) =~= req_views(before).push(r@));
        i += 1;
    }
    assert(us.take(urls@.len() as int) =~= us);
}

fn collect_weave(
    package: &String,
    meta: &PrebuildMeta,
    cfg: &ExecutionConfig,
    host: &HostPlatform,
    node_abi: &str,
) -> (r: Vec<NativePrebuildRequirement>)
    ensures
        req_views(r@) == weave_models(package@, meta.weave_prebuilds@, *cfg, *host, node_abi@),
{
    let ghost pk = package@;
    let mut reqs: Vec<NativePrebuildRequirement> = Vec::new();
    let ghost ws = meta.weave_prebuilds@;
    let mut i: usize = 0;
    assert(req_views(reqs@) =~= weave_models(pk, ws.take(0), *cfg, *host, node_abi@));
    while i < meta.weave_prebuilds.len()
        invariant
            i <= ws.len(),
            ws == meta.weave_prebuilds@,
            pk == package@,
            req_views(reqs@) == weave_models(pk, ws.take(i as int), *cfg, *host, node_abi@),
        decreases ws.len() - i,
    {
        assert(ws.take(i + 1).drop_last() =~= ws.take(i as int));
        let r = from_weave_prebuild(package.as_str(), &meta.weave_prebuilds[i], cfg, host, node_abi);
        let ghost before = reqs@;
        reqs.push(r);
        assert(req_views(reqs@) =~= req_views(before).push(r@));
        i += 1;
    }
    assert(ws.take(ws.len() as int) =~= ws);
    reqs
}

fn push_entry_literals(
    reqs: &mut Vec<NativePrebuildRequirement>,
    package: &String,
    meta: &PrebuildMeta,
    files: &PrebuildFiles,
    cfg: &ExecutionConfig,
    host: &HostPlatform,
    node_abi: &str,
)
    ensures
        req_views(final(reqs)@) == req_views(old(reqs)@) + texts_literal_models(
            package@,
            entry_texts(*files),
            *cfg,
            *host,
            node_abi@,
            *meta,
        ),
{
    let ghost pk = package@;
    let ghost s3 = req_views(reqs@);
    let ghost et = entry_texts(*files);
    let ghost e0 = match opt_view(files.install_js) {
        Some(t) => seq![t],
        None => Seq::<Seq<char>>::empty(),
    };
    match &files.install_js {
        Some(t) => push_literals(reqs, package.as_str(), t.as_str(), cfg, host, node_abi, meta),
        None => {},
    }
    proof {
        let em = Seq::<Seq<char>>::empty();
        assert(texts_literal_models(pk, em, *cfg, *host, node_abi@, *meta) == Seq::<RequirementModel>::empty());
        if e0.len() > 0 {
            assert(e0.drop_last() =~= em);
            let lm = literal_models(pk, sorted_set(https_literals(e0.last())), *cfg, *host, node_abi@, *meta);
            assert(texts_literal_models(pk, e0, *cfg, *host, node_abi@, *meta) =~= Seq::<RequirementModel>::empty() + lm);
        } else {
            assert(e0 =~= em);
        }
        assert(req_views(reqs@) =~= s3 + texts_literal_models(pk, e0, *cfg, *host, node_abi@, *meta));
    }
    match &files.scripts_install_js {
        Some(t) => push_literals(reqs, package.as_str(), t.as_str(), cfg, host, node_abi, meta),
        None => {},
    }
    proof {
        match opt_view(files.scripts_install_js) {
            Some(t) => {
                assert(et.drop_last() =~= e0);
                assert(et.last() == t);
            },
            None => {
                assert(et =~= e0);
            },
        }
        assert(req_views(reqs@) =~= s3 + texts_literal_models(pk, et, *cfg, *host, node_abi@, *meta));
    }
}

fn push_script_literals(
    reqs: &mut Vec<NativePrebuildRequirement>,
    package: &String,
    meta: &PrebuildMeta,
    cfg: &ExecutionConfig,
    host: &HostPlatform,
    node_abi: &str,
)
    ensures
        req_views(final(reqs)@) == req_views(old(reqs)@) + texts_literal_models(
            package@,
            script_values(meta.scripts),
            *cfg,
            *host,
            node_abi@,
            *meta,
        ),
{
    let ghost pk = package@;
    let ghost s4 = req_views(reqs@);
    let ghost sv = script_values(meta.scripts);
    let mut j: usize = 0;
    assert(sv.take(0) =~= Seq::<Seq<char>>::empty());
    assert(req_views(reqs@) =~= s4 + texts_literal_models(pk, sv.take(0), *cfg, *host, node_abi@, *meta));
    while j < meta.scripts.len()
        invariant
            j <= sv.len(),
            sv == script_values(meta.scripts),
            pk == package@,
            req_views(reqs@) == s4 + texts_literal_models(pk, sv.take(j as int), *cfg, *host, node_abi@, *meta),
        decreases sv.len() - j,
    {
        assert(sv.take(j + 1).drop_last() =~= sv.take(j as int));
        assert(sv.take(j + 1).last() == meta.scripts.spec_entries()[j as int].1);
        push_literals(reqs, package.as_str(), meta.scripts.value_at(j).as_str(), cfg, host, node_abi, meta);
        assert(req_views(reqs@) =~= s4 + texts_literal_models(pk, sv.take(j + 1), *cfg, *host, node_abi@, *meta));
        j += 1;
    }
    assert(sv.take(sv.len() as int) =~= sv);
}

fn detect_requirements(
    package: &String,
    meta: &PrebuildMeta,
    files: &PrebuildFiles,
    cfg: &ExecutionConfig,
    host: &HostPlatform,
    node_abi: &str,
) -> (r: Vec<NativePrebuildRequirement>)
    requires
        meta.scripts.wf(),
    ensures
        req_views(r@) == detected_models(package@, *meta, *files, *cfg, *host, node_abi@),
{
    let ghost pk = package@;
    let mut reqs = collect_weave(package, meta, cfg, host, node_abi);
    let ghost s1 = req_views(reqs@);
    match from_node_pre_gyp(package.as_str(), meta, cfg, host, node_abi) {
        Some(r) => {
            let ghost before = reqs@;
            reqs.push(r);
            assert(req_views(reqs@) =~= req_views(before) + seq![r@]);
        },
        None => {
            assert(req_views(reqs@) =~= s1 + Seq::<RequirementModel>::empty());
        },
    }
    let ghost s2 = req_views(reqs@);
    if meta.has_prebuild_install_script || files.has_prebuilds_dir {
        let r = from_prebuild_install_layout(package.as_str(), meta, host, node_abi);
        let ghost before = reqs@;
        reqs.push(r);
        assert(req_views(reqs@) =~= req_views(before) + seq![r@]);
    } else {
        assert(req_views(reqs@) =~= s2 + Seq::<RequirementModel>::empty());
    }
    push_entry_literals(&mut reqs, package, meta, files, cfg, host, node_abi);
    push_script_literals(&mut reqs, package, meta, cfg, host, node_abi);
    if reqs.len() == 0 {
        match known_package_heuristic(package.as_str(), meta, cfg, host, node_abi) {
            Some(r) => {
                reqs.push(r);
                assert(req_views(reqs@) =~= seq![r@]);
            },
            None => {
                assert(req_views(reqs@) =~= Seq::<RequirementModel>::empty());
            },
        }
    }
    reqs
}

/// Resolve native prebuild requirements of one package from its metadata
/// and the files read from its directory. Runs nothing and fetches nothing.
pub fn resolve_from_parts(
    meta: &PrebuildMeta,
    files: &PrebuildFiles,
    cfg: &ExecutionConfig,
    host: &HostPlatform,
    node_abi: &str,
) -> (r: NativePrebuildReport)
    requires
        meta.scripts.wf(),
    ensures
        r.package@ == report_package(*meta, *files),
        opt_view(r.version) == opt_view(meta.version),
        ({
            let d = dedup_reqs(
                stable_sort(
                    detected_models(report_package(*meta, *files), *meta, *files, *cfg, *host, node_abi@),
                ),
            );
            &&& r.needs_manual_policy == needs_manual(d, *meta)
            &&& req_views(r.requirements@) == if d.len() == 0 && needs_manual(d, *meta) {
                seq![fallback_model(report_package(*meta, *files), *host, node_abi@)]
            } else {
                d
            }
        }),
{
    let package = match &meta.name {
        Some(n) => own(n.as_str()),
        None => or_str(&files.dir_name, "unknown"),
    };
    let reqs = detect_requirements(&package, meta, files, cfg, host, node_abi);
    let sorted = sort_requirements(reqs);
    let mut reqs = dedup_requirements(sorted);
    let ghost d = req_views(reqs@);
    let mut manual = false;
    let mut k: usize = 0;
    while k < reqs.len()
        invariant
            k <= reqs@.len(),
            d == req_views(reqs@),
            manual == (exists|q: int|
                0 <= q < k && #[trigger] d[q].status != PrebuildResolveStatus::Configured
                    && d[q].status != PrebuildResolveStatus::Suggestable),
        decreases reqs@.len() - k,
    {
        assert(d[k as int] == reqs@[k as int]@);
        if reqs[k].status != PrebuildResolveStatus::Configured && reqs[k].status
            != PrebuildResolveStatus::Suggestable {
            assert(d[k as int].status != PrebuildResolveStatus::Configured && d[k as int].status
                != PrebuildResolveStatus::Suggestable);
            manual = true;
        }
        k += 1;
    }
    if reqs.len() == 0 && (meta.binary.is_some() || meta.has_prebuild_install_script
        || download_hint_of(&meta.scripts)) {
        manual = true;
    }
    if reqs.len() == 0 && manual {
        let r = base_req(
            package.as_str(),
            PrebuildPatternKind::KnownPackagePattern,
            None,
            None,
            None,
            node_abi,
            host.os.as_str(),
            host.cpu.as_str(),
            no_tokens(),
            own("install/native download behavior detected but no concrete HTTPS URL, output path, and integrity could be established statically — declare execution.prebuild.fetches manually"),
        );
        reqs.push(r);
        assert(req_views(reqs@) =~= seq![r@]);
    }
    let version = match &meta.version {
        Some(v) => Some(own(v.as_str())),
        None => None,
    };
    NativePrebuildReport { package, version, requirements: reqs, needs_manual_policy: manual }
}

// ---------------------------------------------------------------------------
// Reviewable drafts
// ---------------------------------------------------------------------------

/// Reviewable prebuild fetch draft (only for suggestable requirements).
#[derive(Debug, PartialEq, Eq)]
pub struct SuggestedPrebuildFetch {
    /// Draft fetch spec for human review.
    pub spec: PrebuildFetchSpec,
    /// Host to add to allow_hosts if missing.
    pub host: String,
    /// Detection pattern that produced this draft.
    pub pattern: PrebuildPatternKind,
    /// Reminder text.
    pub note: String,
}

/// A draft as plain values.
pub struct DraftModel {
    pub package: Seq<char>,
    pub url: Seq<char>,
    pub integrity: Seq<char>,
    pub output: Seq<char>,
    pub node_abi: Option<Seq<char>>,
    pub os: Option<Seq<char>>,
    pub cpu: Option<Seq<char>>,
    pub host: Seq<char>,
    pub pattern: PrebuildPatternKind,
    pub note: Seq<char>,
}

impl View for SuggestedPrebuildFetch {
    type V = DraftModel;

    open spec fn view(&self) -> DraftModel {
        DraftModel {
            package: self.spec.package@,
            url: self.spec.url@,
            integrity: self.spec.integrity@,
            output: self.spec.output@,
            node_abi: opt_view(self.spec.node_abi),
            os: opt_view(self.spec.os),
            cpu: opt_view(self.spec.cpu),
            host: self.host@,
            pattern: self.pattern,
            note: self.note@,
        }
    }
}

/// Drafts by their plain values.
pub open spec fn draft_views(s: Seq<SuggestedPrebuildFetch>) -> Seq<DraftModel> {
    s.map_values(|d: SuggestedPrebuildFetch| d@)
}

/// The reminder attached to every draft.
pub open spec fn draft_note() -> Seq<char> {
    "REVIEW ONLY — discovered from package metadata; not auto-approved; enable profile=prebuild-fetch + dual gate after review"@
}

/// A configured fetch has this package, URL, output and integrity.
pub open spec fn configured_exactly(cfg: ExecutionConfig, package: Seq<char>, url: Seq<char>, output: Seq<char>, integrity: Seq<char>) -> bool {
    exists|i: int|
        0 <= i < cfg.prebuild.fetches@.len() && #[trigger] cfg.prebuild.fetches@[i].package@
            == package && cfg.prebuild.fetches@[i].url@ == url && cfg.prebuild.fetches@[i].output@
            == output && cfg.prebuild.fetches@[i].integrity@ == integrity
}

/// Whether `url` parses with the `https` scheme.
pub open spec fn https_url(url: Seq<char>) -> bool {
    parse_https_host_spec(url) matches Ok(sh) && sh.0 == "https"@
}

/// The draft a requirement yields, if it is suggestable, complete, has an
/// `https` URL and is not configured identically already.
pub open spec fn draft_of(m: RequirementModel, cfg: ExecutionConfig) -> Option<DraftModel> {
    if m.status == PrebuildResolveStatus::Suggestable && m.url.is_some() && m.output.is_some()
        && m.integrity.is_some() && https_url(m.url.unwrap())
        && !configured_exactly(cfg, m.package, m.url.unwrap(), m.output.unwrap(), m.integrity.unwrap()) {
        Some(
            DraftModel {
                package: m.package,
                url: m.url.unwrap(),
                integrity: m.integrity.unwrap(),
                output: m.output.unwrap(),
                node_abi: m.node_abi,
                os: m.os,
                cpu: m.cpu,
                host: match parse_https_host_spec(m.url.unwrap()) {
                    Ok(sh) => sh.1,
                    Err(_) => Seq::empty(),
                },
                pattern: m.pattern,
                note: draft_note(),
            },
        )
    } else {
        None
    }
}

/// Drafts of the requirements, in order.
pub open spec fn drafts_of(reqs: Seq<RequirementModel>, cfg: ExecutionConfig) -> Seq<DraftModel>
    decreases reqs.len(),
{
    if reqs.len() == 0 {
        Seq::empty()
    } else {
        match draft_of(reqs.last(), cfg) {
            Some(d) => drafts_of(reqs.drop_last(), cfg).push(d),
            None => drafts_of(reqs.drop_last(), cfg),
        }
    }
}

fn configured_exact(cfg: &ExecutionConfig, package: &str, url: &str, output: &str, integrity: &str) -> (r: bool)
    ensures
        r == configured_exactly(*cfg, package@, url@, output@, integrity@),
{
    let mut i: usize = 0;
    while i < cfg.prebuild.fetches.len()
        invariant
            i <= cfg.prebuild.fetches@.len(),
            forall|j: int|
                0 <= j < i ==> !(#[trigger] cfg.prebuild.fetches@[j].package@ == package@
                    && cfg.prebuild.fetches@[j].url@ == url@ && cfg.prebuild.fetches@[j].output@
                    == output@ && cfg.prebuild.fetches@[j].integrity@ == integrity@),
        decreases cfg.prebuild.fetches@.len() - i,
    {
        let f = &cfg.prebuild.fetches[i];
        if str_eq(f.package.as_str(), package) && str_eq(f.url.as_str(), url) && str_eq(
            f.output.as_str(),
            output,
        ) && str_eq(f.integrity.as_str(), integrity) {
            return true;
        }
        i += 1;
    }
    false
}

fn draft_for(req: &NativePrebuildRequirement, cfg: &ExecutionConfig) -> (r: Option<SuggestedPrebuildFetch>)
    ensures
        match (r, draft_of(req@, *cfg)) {
            (Some(a), Some(b)) => a@ == b,
            (None, None) => true,
            _ => false,
        },
{
    if req.status != PrebuildResolveStatus::Suggestable {
        return None;
    }
    let (url, output, integrity) = match (&req.url, &req.output, &req.integrity) {
        (Some(u), Some(o), Some(i)) => (u, o, i),
        _ => {
            return None;
        },
    };
    let host = match parse_https_host(url.as_str()) {
        Ok((scheme, h)) => {
            if !str_eq(scheme.as_str(), "https") {
                return None;
            }
            h
        },
        Err(_) => {
            return None;
        },
    };
    if configured_exact(cfg, req.package.as_str(), url.as_str(), output.as_str(), integrity.as_str()) {
        return None;
    }
    Some(
        SuggestedPrebuildFetch {
            spec: PrebuildFetchSpec {
                package: own(req.package.as_str()),
                url: own(url.as_str()),
                integrity: own(integrity.as_str()),
                output: own(output.as_str()),
                node_abi: crate::text::copy_opt(&req.node_abi),
                os: crate::text::copy_opt(&req.os),
                cpu: crate::text::copy_opt(&req.cpu),
            },
            host,
            pattern: req.pattern,
            note: own("REVIEW ONLY — discovered from package metadata; not auto-approved; enable profile=prebuild-fetch + dual gate after review"),
        },
    )
}

/// Reviewable drafts from a resolution report. Never includes entries
/// lacking integrity or an `https` URL.
pub fn suggestable_prebuild_fetches(report: &NativePrebuildReport, cfg: &ExecutionConfig) -> (r: Vec<SuggestedPrebuildFetch>)
    ensures
        draft_views(r@) == drafts_of(req_views(report.requirements@), *cfg),
{
    let ghost rv = req_views(report.requirements@);
    let mut out: Vec<SuggestedPrebuildFetch> = Vec::new();
    let mut i: usize = 0;
    assert(draft_views(out@) =~= drafts_of(rv.take(0), *cfg));
    while i < report.requirements.len()
        invariant
            i <= rv.len(),
            rv == req_views(report.requirements@),
            draft_views(out@) == drafts_of(rv.take(i as int), *cfg),
        decreases rv.len() - i,
    {
        assert(rv.take(i + 1).drop_last() =~= rv.take(i as int));
        assert(rv.take(i + 1).last() == report.requirements@[i as int]@);
        match draft_for(&report.requirements[i], cfg) {
            Some(d) => {
                let ghost before = out@;
                out.push(d);
                assert(draft_views(out@) =~= draft_views(before).push(d@));
            },
            None => {},
        }
        i += 1;
    }
    assert(rv.take(rv.len() as int) =~= rv);
    out
}

/// Hosts of the drafts, in order.
pub open spec fn draft_hosts(ds: Seq<DraftModel>) -> Seq<Seq<char>> {
    ds.map_values(|d: DraftModel| d.host)
}

/// One `key = "value"` line.
pub open spec fn toml_line(key: Seq<char>, value: Seq<char>) -> Seq<char> {
    key + " = "@ + debug_quoted(value) + "\n"@
}

/// An optional `key = "value"` line.
pub open spec fn opt_line(key: Seq<char>, value: Option<Seq<char>>) -> Seq<char> {
    match value {
        Some(v) => toml_line(key, v),
        None => Seq::empty(),
    }
}

/// The TOML table of one draft.
pub open spec fn draft_block(d: DraftModel) -> Seq<char> {
    "[[execution.prebuild.fetches]]\n"@ + toml_line("package"@, d.package) + toml_line("url"@, d.url)
        + toml_line("integrity"@, d.integrity) + toml_line("output"@, d.output) + opt_line(
        "node_abi"@,
        d.node_abi,
    ) + opt_line("os"@, d.os) + opt_line("cpu"@, d.cpu) + "\n"@
}

/// The TOML tables of the drafts, in order.
pub open spec fn draft_blocks(ds: Seq<DraftModel>) -> Seq<char>
    decreases ds.len(),
{
    if ds.len() == 0 {
        Seq::empty()
    } else {
        draft_blocks(ds.drop_last()) + draft_block(ds.last())
    }
}

/// Header of the prebuild suggestion, up to `allow_hosts = `.
pub open spec fn prebuild_header() -> Seq<char> {
    "# Suggested prebuild fetches — REVIEW BEFORE USE.\n# Never auto-approved. Requires execution.profile = \"prebuild-fetch\".\n# Plain switch stays network-free; dual gate = enabled + --with-exec.\n[execution.prebuild]\nallow_hosts = "@
}

/// The rendered prebuild suggestion (empty without drafts).
pub open spec fn prebuild_toml(ds: Seq<DraftModel>, current_hosts: Seq<Seq<char>>) -> Seq<char> {
    if ds.len() == 0 {
        Seq::empty()
    } else {
        prebuild_header() + debug_list(sorted_set(current_hosts + draft_hosts(ds))) + "\n\n"@
            + draft_blocks(ds)
    }
}

fn push_line(out: &mut Vec<char>, key: &str, value: &str)
    ensures
        final(out)@ == old(out)@ + toml_line(key@, value@),
{
    extend_str(out, key);
    extend_str(out, " = ");
    extend_str(out, debug_str(value).as_str());
    extend_str(out, "\n");
}

fn push_opt_line(out: &mut Vec<char>, key: &str, value: &Option<String>)
    ensures
        final(out)@ == old(out)@ + opt_line(key@, opt_view(*value)),
{
    match value {
        Some(v) => push_line(out, key, v.as_str()),
        None => {
            assert(out@ =~= out@ + Seq::<char>::empty());
        },
    }
}

fn push_block(out: &mut Vec<char>, d: &SuggestedPrebuildFetch)
    ensures
        final(out)@ == old(out)@ + draft_block(d@),
{
    let ghost before = out@;
    extend_str(out, "[[execution.prebuild.fetches]]\n");
    push_line(out, "package", d.spec.package.as_str());
    push_line(out, "url", d.spec.url.as_str());
    push_line(out, "integrity", d.spec.integrity.as_str());
    push_line(out, "output", d.spec.output.as_str());
    push_opt_line(out, "node_abi", &d.spec.node_abi);
    push_opt_line(out, "os", &d.spec.os);
    push_opt_line(out, "cpu", &d.spec.cpu);
    extend_str(out, "\n");
    assert(out@ =~= before + draft_block(d@));
}

/// Render a TOML fragment for the drafts (review only; never enables anything).
pub fn render_prebuild_suggestion_toml(drafts: &Vec<SuggestedPrebuildFetch>, current_hosts: &Vec<String>) -> (r: String)
    ensures
        r@ == prebuild_toml(draft_views(drafts@), current_hosts.deep_view()),
{
    let ghost dv = draft_views(drafts@);
    if drafts.len() == 0 {
        return String::new();
    }
    let mut hosts = crate::text::copy_strings(current_hosts);
    let mut i: usize = 0;
    assert(hosts.deep_view() =~= current_hosts.deep_view() + draft_hosts(dv.take(0)));
    while i < drafts.len()
        invariant
            i <= dv.len(),
            dv == draft_views(drafts@),
            hosts.deep_view() == current_hosts.deep_view() + draft_hosts(dv.take(i as int)),
        decreases dv.len() - i,
    {
        let ghost before = hosts.deep_view();
        hosts.push(own(drafts[i].host.as_str()));
        assert(hosts.deep_view() =~= before.push(dv[i as int].host));
        assert(draft_hosts(dv.take(i + 1)) =~= draft_hosts(dv.take(i as int)).push(dv[i as int].host));
        i += 1;
    }
    assert(dv.take(dv.len() as int) =~= dv);
    let sorted = sort_dedup(&hosts);
    let mut out = chars_of("# Suggested prebuild fetches — REVIEW BEFORE USE.\n# Never auto-approved. Requires execution.profile = \"prebuild-fetch\".\n# Plain switch stays network-free; dual gate = enabled + --with-exec.\n[execution.prebuild]\nallow_hosts = ");
    extend_str(&mut out, crate::discovery::debug_names(&sorted).as_str());
    extend_str(&mut out, "\n\n");
    let ghost head = out@;
    let mut k: usize = 0;
    assert(out@ =~= head + draft_blocks(dv.take(0)));
    while k < drafts.len()
        invariant
            k <= dv.len(),
            dv == draft_views(drafts@),
            out@ == head + draft_blocks(dv.take(k as int)),
        decreases dv.len() - k,
    {
        assert(dv.take(k + 1).drop_last() =~= dv.take(k as int));
        let d = &drafts[k];
        assert(dv[k as int] == d@);
        push_block(&mut out, d);
        k += 1;
    }
    assert(dv.take(dv.len() as int) =~= dv);
    string_of(&out)
}

} // verus!
