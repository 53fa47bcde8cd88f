//! `weave status`: the project's state assembled from what was found on
//! disk, in git and in the environment store.
use vstd::prelude::*;
use crate::environment::{active_matches_lockfile, branch_association, first_where, labelled, with_id, EnvironmentRecord};
use crate::lockfile::LockfileKind;
use crate::project::{compute_next_steps, next_steps_spec};
use crate::text::{copy_opt, opt_view, own};

verus! {

/// What `weave status` found: plain values read from the working tree, git,
/// the lockfile and the environment store.
pub struct StatusFacts {
    /// Project root.
    pub root: String,
    /// `.weave/` exists.
    pub initialized: bool,
    /// Current branch, if any.
    pub branch: Option<String>,
    /// HEAD commit, if any.
    pub head: Option<String>,
    /// The working tree has changes.
    pub dirty: bool,
    /// Dependency files differ from HEAD.
    pub dependency_files_dirty: bool,
    /// Kind of the lockfile found, if any.
    pub lockfile_kind: Option<LockfileKind>,
    /// Lockfile path relative to the root, when there is a lockfile.
    pub lockfile_path: Option<String>,
    /// Parsing the lockfile: its package count and graph identity, or the
    /// error text (absent without a lockfile).
    pub lockfile: Option<Result<(usize, String), String>>,
    /// `node_modules/` exists.
    pub node_modules_present: bool,
    /// Known environments (none when not initialized).
    pub environments: Vec<EnvironmentRecord>,
    /// The active environment id (none when not initialized).
    pub active_environment: Option<String>,
    /// A candidate tree was left behind.
    pub leftover_candidate: bool,
    /// A backup `node_modules` was left behind.
    pub leftover_backup: bool,
}

/// Git part of the status.
pub struct GitStatus {
    pub root: String,
    pub branch: Option<String>,
    pub head: Option<String>,
    pub dirty: bool,
    pub dependency_files_dirty: bool,
}

/// Lockfile part of the status.
pub struct DependencyStatus {
    pub package_json: bool,
    pub lockfile_present: bool,
    pub lockfile_kind: Option<LockfileKind>,
    pub lockfile_path: Option<String>,
    pub package_count: Option<usize>,
    pub graph_identity: Option<String>,
    pub parse_error: Option<String>,
}

/// `node_modules` part of the status.
pub struct MaterializationStatus {
    pub node_modules_present: bool,
    pub active_environment: Option<String>,
}

/// One known environment as the status shows it.
pub struct EnvironmentSummary {
    pub id: String,
    pub label: Option<String>,
    pub owner: Option<String>,
    pub package_count: usize,
    pub active: bool,
    pub matches_lockfile: Option<bool>,
    pub created_at: Option<String>,
    pub last_activated_at: Option<String>,
}

/// Environment part of the status.
pub struct EnvironmentStatus {
    pub known_count: usize,
    pub branch_association: Option<String>,
    pub environments: Vec<EnvironmentSummary>,
}

/// The status of a project.
pub struct ProjectStatus {
    pub initialized: bool,
    pub git: GitStatus,
    pub dependency: DependencyStatus,
    pub materialization: MaterializationStatus,
    pub environment: EnvironmentStatus,
    pub next_steps: Vec<String>,
}

/// The graph identity the lockfile gave, if it parsed.
pub open spec fn parsed_identity(f: StatusFacts) -> Option<Seq<char>> {
    match f.lockfile {
        Some(Ok(p)) => Some(p.1@),
        _ => None,
    }
}

/// `s` summarises the record `e` given the active id and the graph identity.
pub open spec fn summary_of(s: EnvironmentSummary, e: EnvironmentRecord, active: Option<Seq<char>>, gid: Option<Seq<char>>) -> bool {
    &&& s.id@ == e.id@
    &&& opt_view(s.label) == opt_view(e.label)
    &&& opt_view(s.owner) == opt_view(e.owner)
    &&& s.package_count == e.package_count
    &&& s.active == (active == Some(e.id@))
    &&& s.matches_lockfile == match gid {
        Some(g) => Some(g == e.graph_identity@),
        None => None,
    }
    &&& opt_view(s.created_at) == opt_view(e.created_at)
    &&& opt_view(s.last_activated_at) == opt_view(e.last_activated_at)
}

/// Whether the active environment was built from the parsed lockfile.
pub open spec fn active_match_spec(f: StatusFacts) -> Option<bool> {
    match (opt_view(f.active_environment), parsed_identity(f)) {
        (Some(a), Some(g)) => {
            let k = first_where(f.environments@, with_id(a), 0);
            if k < f.environments@.len() {
                Some(f.environments@[k].graph_identity@ == g)
            } else {
                None
            }
        },
        _ => None,
    }
}

fn summaries(envs: &Vec<EnvironmentRecord>, active: &Option<String>, gid: &Option<String>) -> (r: Vec<EnvironmentSummary>)
    ensures
        r@.len() == envs@.len(),
        forall|i: int| 0 <= i < envs@.len() ==> summary_of(#[trigger] r@[i], envs@[i], opt_view(*active), opt_view(*gid)),
{
    let mut out: Vec<EnvironmentSummary> = Vec::new();
    let mut i: usize = 0;
    while i < envs.len()
        invariant
            i <= envs@.len(),
            out@.len() == i,
            forall|j: int| 0 <= j < i ==> summary_of(#[trigger] out@[j], envs@[j], opt_view(*active), opt_view(*gid)),
        decreases envs@.len() - i,
    {
        let e = &envs[i];
        let is_active = match active {
            Some(a) => crate::text::str_eq(a.as_str(), e.id.as_str()),
            None => false,
        };
        let matches = match gid {
            Some(g) => Some(crate::text::str_eq(g.as_str(), e.graph_identity.as_str())),
            None => None,
        };
        out.push(
            EnvironmentSummary {
                id: own(e.id.as_str()),
                label: copy_opt(&e.label),
                owner: copy_opt(&e.owner),
                package_count: e.package_count,
                active: is_active,
                matches_lockfile: matches,
                created_at: copy_opt(&e.created_at),
                last_activated_at: copy_opt(&e.last_activated_at),
            },
        );
        i += 1;
    }
    out
}

/// The project status from what was found: the git, lockfile,
/// `node_modules` and environment parts as found, each known environment
/// summarised against the active id and the lockfile's graph identity, the
/// environment associated with the branch, and the next steps.
pub fn status_report(facts: &StatusFacts) -> (r: ProjectStatus)
    ensures
        r.initialized == facts.initialized,
        r.git.root@ == facts.root@,
        opt_view(r.git.branch) == opt_view(facts.branch),
        opt_view(r.git.head) == opt_view(facts.head),
        r.git.dirty == facts.dirty,
        r.git.dependency_files_dirty == facts.dependency_files_dirty,
        r.dependency.package_json,
        r.dependency.lockfile_present == facts.lockfile_path.is_some(),
        r.dependency.lockfile_kind == facts.lockfile_kind,
        opt_view(r.dependency.lockfile_path) == opt_view(facts.lockfile_path),
        r.dependency.package_count == match facts.lockfile {
            Some(Ok(p)) => Some(p.0),
            _ => None,
        },
        opt_view(r.dependency.graph_identity) == parsed_identity(*facts),
        opt_view(r.dependency.parse_error) == match facts.lockfile {
            Some(Err(m)) => Some(m@),
            _ => None,
        },
        r.materialization.node_modules_present == facts.node_modules_present,
        opt_view(r.materialization.active_environment) == opt_view(facts.active_environment),
        r.environment.known_count == facts.environments@.len(),
        match facts.branch {
            None => r.environment.branch_association is None,
            Some(b) => {
                let k = first_where(facts.environments@, labelled(b@), 0);
                if k < facts.environments@.len() {
                    r.environment.branch_association matches Some(id) && id@ == facts.environments@[k].id@
                } else {
                    r.environment.branch_association is None
                }
            },
        },
        r.environment.environments@.len() == facts.environments@.len(),
        forall|i: int|
            0 <= i < facts.environments@.len() ==> summary_of(
                #[trigger] r.environment.environments@[i],
                facts.environments@[i],
                opt_view(facts.active_environment),
                parsed_identity(*facts),
            ),
        r.next_steps.deep_view() == next_steps_spec(
            facts.initialized,
            facts.lockfile_path.is_some(),
            facts.lockfile matches Some(Err(_)),
            facts.active_environment.is_some(),
            facts.node_modules_present,
            facts.leftover_candidate || facts.leftover_backup,
            active_match_spec(*facts),
            facts.dependency_files_dirty,
        ),
{
    let (package_count, graph_identity, parse_error) = match &facts.lockfile {
        Some(Ok((n, g))) => (Some(*n), Some(own(g.as_str())), None),
        Some(Err(m)) => (None, None, Some(own(m.as_str()))),
        None => (None, None, None),
    };
    let active_ref: Option<&str> = match &facts.active_environment {
        Some(a) => Some(a.as_str()),
        None => None,
    };
    let gid_ref: Option<&str> = match &graph_identity {
        Some(g) => Some(g.as_str()),
        None => None,
    };
    let branch_ref: Option<&str> = match &facts.branch {
        Some(b) => Some(b.as_str()),
        None => None,
    };
    let matches = active_matches_lockfile(&facts.environments, active_ref, gid_ref);
    let association = branch_association(&facts.environments, branch_ref);
    let next_steps = compute_next_steps(
        facts.initialized,
        facts.lockfile_path.is_some(),
        parse_error.is_some(),
        facts.active_environment.is_some(),
        facts.node_modules_present,
        facts.leftover_candidate || facts.leftover_backup,
        matches,
        facts.dependency_files_dirty,
    );
    let envs = summaries(&facts.environments, &facts.active_environment, &graph_identity);
    ProjectStatus {
        initialized: facts.initialized,
        git: GitStatus {
            root: own(facts.root.as_str()),
            branch: copy_opt(&facts.branch),
            head: copy_opt(&facts.head),
            dirty: facts.dirty,
            dependency_files_dirty: facts.dependency_files_dirty,
        },
        dependency: DependencyStatus {
            package_json: true,
            lockfile_present: facts.lockfile_path.is_some(),
            lockfile_kind: match facts.lockfile_kind {
                Some(LockfileKind::NpmPackageLock) => Some(LockfileKind::NpmPackageLock),
                None => None,
            },
            lockfile_path: copy_opt(&facts.lockfile_path),
            package_count,
            graph_identity,
            parse_error,
        },
        materialization: MaterializationStatus {
            node_modules_present: facts.node_modules_present,
            active_environment: copy_opt(&facts.active_environment),
        },
        environment: EnvironmentStatus {
            known_count: facts.environments.len(),
            branch_association: association,
            environments: envs,
        },
        next_steps,
    }
}

} // verus!
