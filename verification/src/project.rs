//! Project-level decisions of `weave init` and `weave status`: the next steps
//! to suggest and the `.gitignore` entry for `.weave/`.
use vstd::prelude::*;
use crate::text::{chars_of, extend_str, own, string_of, trim, trim_chars, slice, str_eq};

verus! {

// ---------------------------------------------------------------------------
// Next steps
// ---------------------------------------------------------------------------

/// The steps `weave status` suggests, in order.
pub open spec fn next_steps_spec(
    initialized: bool,
    lockfile_present: bool,
    parse_error: bool,
    has_active: bool,
    node_modules_present: bool,
    needs_recover: bool,
    active_matches_lockfile: Option<bool>,
    dependency_files_dirty: bool,
) -> Seq<Seq<char>> {
    if !lockfile_present {
        seq![
            "create package-lock.json with `npm install` or `npm i --package-lock-only` (Yarn/pnpm-only projects are unsupported)"@,
        ]
    } else if parse_error {
        seq!["fix package-lock.json parse errors, then weave doctor --json"@]
    } else if !initialized {
        seq!["weave init --json"@, "weave doctor --json"@, "weave switch --json"@]
    } else {
        (if needs_recover {
            seq!["weave recover --json"@]
        } else {
            Seq::empty()
        }) + (if dependency_files_dirty {
            seq![
                "dependency files dirty vs HEAD — commit or stash before relying on branch labels"@,
            ]
        } else {
            Seq::empty()
        }) + (if !has_active || !node_modules_present || active_matches_lockfile == Some(false) {
            seq!["weave switch --json"@]
        } else {
            Seq::empty()
        }) + seq!["weave status --json"@] + (if has_active && active_matches_lockfile != Some(false)
            && node_modules_present {
            seq!["weave doctor --json"@]
        } else {
            Seq::empty()
        })
    }
}

/// The next CLI steps for a project in the described state.
pub fn compute_next_steps(
    initialized: bool,
    lockfile_present: bool,
    parse_error: bool,
    has_active: bool,
    node_modules_present: bool,
    needs_recover: bool,
    active_matches_lockfile: Option<bool>,
    dependency_files_dirty: bool,
) -> (r: Vec<String>)
    ensures
        r.deep_view() == next_steps_spec(
            initialized,
            lockfile_present,
            parse_error,
            has_active,
            node_modules_present,
            needs_recover,
            active_matches_lockfile,
            dependency_files_dirty,
        ),
{
    let mut steps: Vec<String> = Vec::new();
    if !lockfile_present {
        steps.push(
            own(
                "create package-lock.json with `npm install` or `npm i --package-lock-only` (Yarn/pnpm-only projects are unsupported)",
            ),
        );
        assert(steps.deep_view() =~= next_steps_spec(
            initialized,
            lockfile_present,
            parse_error,
            has_active,
            node_modules_present,
            needs_recover,
            active_matches_lockfile,
            dependency_files_dirty,
        ));
        return steps;
    }
    if parse_error {
        steps.push(own("fix package-lock.json parse errors, then weave doctor --json"));
        assert(steps.deep_view() =~= seq!["fix package-lock.json parse errors, then weave doctor --json"@]);
        return steps;
    }
    if !initialized {
        steps.push(own("weave init --json"));
        steps.push(own("weave doctor --json"));
        steps.push(own("weave switch --json"));
        assert(steps.deep_view() =~= seq!["weave init --json"@, "weave doctor --json"@, "weave switch --json"@]);
        return steps;
    }
    let ghost mut expect: Seq<Seq<char>> = Seq::empty();
    assert(steps.deep_view() =~= expect);
    if needs_recover {
        steps.push(own("weave recover --json"));
        proof {
            expect = expect.push("weave recover --json"@);
        }
        assert(steps.deep_view() =~= expect);
    }
    if dependency_files_dirty {
        steps.push(
            own("dependency files dirty vs HEAD — commit or stash before relying on branch labels"),
        );
        proof {
            expect = expect.push(
                "dependency files dirty vs HEAD — commit or stash before relying on branch labels"@,
            );
        }
        assert(steps.deep_view() =~= expect);
    }
    let stale = match active_matches_lockfile {
        Some(b) => !b,
        None => false,
    };
    if !has_active || !node_modules_present || stale {
        steps.push(own("weave switch --json"));
        proof {
            expect = expect.push("weave switch --json"@);
        }
        assert(steps.deep_view() =~= expect);
    }
    steps.push(own("weave status --json"));
    proof {
        expect = expect.push("weave status --json"@);
    }
    assert(steps.deep_view() =~= expect);
    if has_active && !stale && node_modules_present {
        steps.push(own("weave doctor --json"));
        proof {
            expect = expect.push("weave doctor --json"@);
        }
        assert(steps.deep_view() =~= expect);
    }
    assert(expect =~= next_steps_spec(
        initialized,
        lockfile_present,
        parse_error,
        has_active,
        node_modules_present,
        needs_recover,
        active_matches_lockfile,
        dependency_files_dirty,
    ));
    steps
}

// ---------------------------------------------------------------------------
// `.gitignore`
// ---------------------------------------------------------------------------

/// A trimmed `.gitignore` line that already ignores `.weave/`.
pub open spec fn ignores_weave(line: Seq<char>) -> bool {
    let t = trim(line);
    t == ".weave/"@ || t == ".weave"@ || t == "**/.weave/"@
}

/// `c[i..j]` is a line of `c`: it starts the text or follows a newline, ends
/// the text or precedes one, and holds no newline.
pub open spec fn is_line(c: Seq<char>, i: int, j: int) -> bool {
    &&& 0 <= i <= j <= c.len()
    &&& (i == 0 || c[i - 1] == '\n')
    &&& (j == c.len() || c[j] == '\n')
    &&& forall|k: int| i <= k < j ==> c[k] != '\n'
}

/// Some line of `c` already ignores `.weave/`.
pub open spec fn has_weave_line(c: Seq<char>) -> bool {
    exists|i: int, j: int| is_line(c, i, j) && ignores_weave(#[trigger] c.subrange(i, j))
}

/// What must be appended to `.gitignore` (or written, when there is none)
/// so that it ignores `.weave/`; nothing when a line already does.
pub open spec fn gitignore_addition_spec(contents: Option<Seq<char>>) -> Option<Seq<char>> {
    match contents {
        None => Some(".weave/\n"@),
        Some(c) => if has_weave_line(c) {
            None
        } else if c.len() > 0 && c.last() != '\n' {
            Some("\n.weave/\n"@)
        } else {
            Some(".weave/\n"@)
        },
    }
}

fn line_ignores_weave(c: &Vec<char>, i: usize, j: usize) -> (r: bool)
    requires
        i <= j <= c@.len(),
    ensures
        r == ignores_weave(c@.subrange(i as int, j as int)),
{
    let seg = slice(c, i, j);
    let t = string_of(&trim_chars(&seg));
    str_eq(t.as_str(), ".weave/") || str_eq(t.as_str(), ".weave") || str_eq(t.as_str(), "**/.weave/")
}

/// Text to append to `.gitignore` (or the whole file when `contents` is
/// `None`) so that `.weave/` is ignored, or `None` when it already is.
pub fn gitignore_addition(contents: Option<&str>) -> (r: Option<String>)
    ensures
        match (r, gitignore_addition_spec(
            match contents {
                Some(c) => Some(c@),
                None => None,
            },
        )) {
            (Some(a), Some(b)) => a@ == b,
            (None, None) => true,
            _ => false,
        },
{
    let text = match contents {
        None => {
            return Some(own(".weave/\n"));
        },
        Some(t) => t,
    };
    let c = chars_of(text);
    let mut start: usize = 0;
    let mut k: usize = 0;
    while k < c.len()
        invariant
            c@ == text@,
            contents == Some(text),
            start <= k <= c@.len(),
            start == 0 || c@[start - 1] == '\n',
            forall|q: int| start <= q < k ==> c@[q] != '\n',
            forall|i: int, j: int|
                is_line(c@, i, j) && j < start ==> !ignores_weave(#[trigger] c@.subrange(i, j)),
        decreases c@.len() - k,
    {
        if c[k] == '\n' {
            if line_ignores_weave(&c, start, k) {
                assert(is_line(text@, start as int, k as int));
                assert(ignores_weave(text@.subrange(start as int, k as int)));
                return None;
            }
            assert forall|i: int, j: int|
                is_line(c@, i, j) && j < k + 1 implies !ignores_weave(#[trigger] c@.subrange(i, j)) by {
                if j >= start {
                    if i < start {
                        assert(c@[start - 1] == '\n');
                    }
                    if i > start {
                        assert(c@[i - 1] == '\n');
                    }
                    assert(i == start);
                    if j < k {
                        assert(c@[j] == '\n');
                    }
                    assert(j == k);
                }
            }
            start = k + 1;
        }
        k += 1;
    }
    if line_ignores_weave(&c, start, c.len()) {
        assert(is_line(c@, start as int, c@.len() as int));
        return None;
    }
    assert forall|i: int, j: int| is_line(c@, i, j) implies !ignores_weave(#[trigger] c@.subrange(i, j)) by {
        if j >= start {
            if i < start {
                assert(c@[start - 1] == '\n');
            }
            if i > start {
                assert(c@[i - 1] == '\n');
            }
            if j < c@.len() {
                assert(c@[j] == '\n');
            }
        }
    }
    if c.len() > 0 && c[c.len() - 1] != '\n' {
        Some(own("\n.weave/\n"))
    } else {
        Some(own(".weave/\n"))
    }
}

// ---------------------------------------------------------------------------
// `weave init`
// ---------------------------------------------------------------------------

/// Result of a successful `weave init` (idempotent).
#[derive(Debug)]
pub struct InitOutcome {
    /// Project root that was initialized.
    pub root: String,
    /// Path to `.weave/`.
    pub weave_dir: String,
    /// Path to the global object store.
    pub store_dir: String,
    /// Whether a supported lockfile was present.
    pub lockfile_present: bool,
    /// True when this call created `.weave/`.
    pub created: bool,
    /// Suggested next CLI commands.
    pub next_steps: Vec<String>,
}

/// The outcome `weave init` reports once the lockfile was found: the same
/// next steps whether or not `.weave/` was created by this call.
pub fn init_outcome(root: String, weave_dir: String, store_dir: String, created: bool) -> (r: InitOutcome)
    ensures
        r.root@ == root@,
        r.weave_dir@ == weave_dir@,
        r.store_dir@ == store_dir@,
        r.lockfile_present,
        r.created == created,
        r.next_steps.deep_view() == seq!["weave doctor --json"@, "weave switch --json"@, "weave status --json"@],
{
    let next_steps = vec![own("weave doctor --json"), own("weave switch --json"), own("weave status --json")];
    assert(next_steps.deep_view() =~= seq!["weave doctor --json"@, "weave switch --json"@, "weave status --json"@]);
    InitOutcome { root, weave_dir, store_dir, lockfile_present: true, created, next_steps }
}

} // verus!
