//! Decisions of `weave switch`: the dual gate for execution, the peer check
//! that precedes acquisition, and whether a named target fits the lockfile.
use vstd::prelude::*;
use crate::audit::{finding_models, PeerAuditFinding, PeerAuditStatus, PeerStatusModel};
use crate::config::ExecutionConfig;
use crate::environment::{answers_to, EnvironmentId, EnvironmentRecord};
use crate::error::Error;
use crate::text::{chars_of, extend_str, own, str_eq, str_starts_with, string_of};

verus! {

/// Options of prepare / switch.
#[derive(Debug)]
pub struct SwitchOptions {
    /// Run opt-in sandboxed execution against the candidate before activation
    /// (also requires `[execution] enabled = true`).
    pub with_exec: bool,
    /// Explicit owner/session stamped onto the environment record.
    pub owner: Option<String>,
}

/// Whether a switch runs execution, given `--with-exec` and the loaded
/// configuration (loaded only with `--with-exec`). Without `--with-exec`
/// nothing runs, whatever the configuration says; with it, the configuration
/// must enable execution.
pub fn switch_exec_gate(options: &SwitchOptions, cfg: Option<&ExecutionConfig>, config_path: &str) -> (r: Result<bool, Error>)
    requires
        options.with_exec ==> cfg is Some,
    ensures
        !options.with_exec ==> r == Ok::<bool, Error>(false),
        options.with_exec ==> match cfg {
            Some(c) => if c.enabled {
                r == Ok::<bool, Error>(true)
            } else {
                r matches Err(Error::InvalidState { path, reason }) && path@ == config_path@ && reason@
                    == "--with-exec requires [execution] enabled = true in .weave/config.toml (env vars cannot enable execution)"@
            },
            None => false,
        },
        r matches Ok(true) <==> (options.with_exec && (cfg matches Some(c) && c.enabled)),
{
    if !options.with_exec {
        return Ok(false);
    }
    match cfg {
        Some(c) => {
            if c.is_enabled() {
                Ok(true)
            } else {
                Err(
                    Error::InvalidState {
                        path: own(config_path),
                        reason: own(
                            "--with-exec requires [execution] enabled = true in .weave/config.toml (env vars cannot enable execution)",
                        ),
                    },
                )
            }
        },
        None => Ok(false),
    }
}

/// Findings with a missing required peer, in order.
pub open spec fn missing_required(fs: Seq<(Seq<char>, Seq<char>, Seq<char>, PeerStatusModel)>) -> Seq<(Seq<char>, Seq<char>, Seq<char>, PeerStatusModel)>
    decreases fs.len(),
{
    if fs.len() == 0 {
        Seq::empty()
    } else if fs.last().3 is MissingRequired {
        missing_required(fs.drop_last()).push(fs.last())
    } else {
        missing_required(fs.drop_last())
    }
}

/// `<package> requires peer <peer> (<requested>)` for each finding, joined by `; `.
pub open spec fn peer_detail(fs: Seq<(Seq<char>, Seq<char>, Seq<char>, PeerStatusModel)>) -> Seq<char>
    decreases fs.len(),
{
    if fs.len() == 0 {
        Seq::empty()
    } else {
        let f = fs.last();
        let line = f.0 + " requires peer "@ + f.1 + " ("@ + f.2 + ")"@;
        if fs.len() == 1 {
            line
        } else {
            peer_detail(fs.drop_last()) + "; "@ + line
        }
    }
}

/// Fail when the lockfile leaves required peers unsatisfied.
pub fn check_peer_semantics(findings: &Vec<PeerAuditFinding>) -> (r: Result<(), Error>)
    ensures
        ({
            let m = missing_required(finding_models(findings@));
            if m.len() == 0 {
                r is Ok
            } else {
                r matches Err(Error::InvalidState { path, reason }) && path@ == "package-lock.json"@
                    && reason@ == "unsatisfied required peerDependencies: "@ + peer_detail(m)
                    + ". Weave does not auto-install peers; ensure the lockfile includes them (npm install) or mark them optional via peerDependenciesMeta."@
            }
        }),
{
    let ghost fm = finding_models(findings@);
    let mut detail: Vec<char> = Vec::new();
    let mut count: usize = 0;
    let mut i: usize = 0;
    assert(fm.take(0) =~= Seq::<(Seq<char>, Seq<char>, Seq<char>, PeerStatusModel)>::empty());
    while i < findings.len()
        invariant
            i <= fm.len(),
            fm == finding_models(findings@),
            count == missing_required(fm.take(i as int)).len(),
            count <= i,
            detail@ == peer_detail(missing_required(fm.take(i as int))),
        decreases fm.len() - i,
    {
        let f = &findings[i];
        assert(fm.take(i + 1).drop_last() =~= fm.take(i as int));
        assert(fm.take(i + 1).last() == f.model());
        match f.status {
            PeerAuditStatus::MissingRequired => {
                let ghost prev = missing_required(fm.take(i as int));
                if count > 0 {
                    extend_str(&mut detail, "; ");
                }
                extend_str(&mut detail, f.package.as_str());
                extend_str(&mut detail, " requires peer ");
                extend_str(&mut detail, f.peer.as_str());
                extend_str(&mut detail, " (");
                extend_str(&mut detail, f.requested.as_str());
                extend_str(&mut detail, ")");
                proof {
                    let next = prev.push(f.model());
                    assert(next.drop_last() =~= prev);
                    if prev.len() == 0 {
                        assert(detail@ =~= peer_detail(next));
                    } else {
                        assert(detail@ =~= peer_detail(next));
                    }
                }
                count += 1;
            },
            _ => {},
        }
        i += 1;
    }
    assert(fm.take(fm.len() as int) =~= fm);
    if count == 0 {
        return Ok(());
    }
    let mut m = chars_of("unsatisfied required peerDependencies: ");
    crate::text::extend_chars(&mut m, &detail);
    extend_str(
        &mut m,
        ". Weave does not auto-install peers; ensure the lockfile includes them (npm install) or mark them optional via peerDependenciesMeta.",
    );
    Err(Error::InvalidState { path: own("package-lock.json"), reason: string_of(&m) })
}

/// Index of the first record answering to `target`, or the length.
pub open spec fn first_answering(envs: Seq<EnvironmentRecord>, target: Seq<char>, i: int) -> int
    decreases envs.len() - i,
{
    if i < 0 || i >= envs.len() {
        envs.len() as int
    } else if answers_to(envs[i], target) {
        i
    } else {
        first_answering(envs, target, i + 1)
    }
}

/// A named switch target must name an environment (the first answering to
/// it) whose id is the one the current lockfile produces.
pub fn check_target(envs: &Vec<EnvironmentRecord>, target: &str, current: &EnvironmentId, dir: &str) -> (r: Result<(), Error>)
    ensures
        ({
            let k = first_answering(envs@, target@, 0);
            if k >= envs@.len() {
                r matches Err(Error::InvalidState { path, reason }) && path@ == dir@ && reason@
                    == "no environment matches target '"@ + target@
                    + "'. Run `weave env create` after checking out that branch, or omit the target to use the current lockfile."@
            } else if envs@[k].id@ != current@ {
                r matches Err(Error::InvalidState { path, reason }) && path@ == dir@ && reason@
                    == "target '"@ + target@ + "' refers to environment "@ + envs@[k].id@
                    + ", but the current lockfile produces "@ + current@
                    + ". Checkout the matching branch/lockfile (Weave does not run git switch automatically)."@
            } else {
                r is Ok
            }
        }),
{
    let mut i: usize = 0;
    while i < envs.len()
        invariant
            i <= envs@.len(),
            first_answering(envs@, target@, 0) == first_answering(envs@, target@, i as int),
        decreases envs@.len() - i,
    {
        let e = &envs[i];
        let hit = match &e.label {
            Some(l) => str_eq(l.as_str(), target),
            None => false,
        } || str_eq(e.id.as_str(), target) || str_starts_with(e.id.as_str(), target);
        if hit {
            assert(first_answering(envs@, target@, i as int) == i);
            if !str_eq(e.id.as_str(), current.as_str()) {
                let mut m = chars_of("target '");
                extend_str(&mut m, target);
                extend_str(&mut m, "' refers to environment ");
                extend_str(&mut m, e.id.as_str());
                extend_str(&mut m, ", but the current lockfile produces ");
                extend_str(&mut m, current.as_str());
                extend_str(
                    &mut m,
                    ". Checkout the matching branch/lockfile (Weave does not run git switch automatically).",
                );
                return Err(Error::InvalidState { path: own(dir), reason: string_of(&m) });
            }
            return Ok(());
        }
        i += 1;
    }
    let mut m = chars_of("no environment matches target '");
    extend_str(&mut m, target);
    extend_str(
        &mut m,
        "'. Run `weave env create` after checking out that branch, or omit the target to use the current lockfile.",
    );
    Err(Error::InvalidState { path: own(dir), reason: string_of(&m) })
}

} // verus!
