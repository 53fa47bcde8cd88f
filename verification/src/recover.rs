//! Recovery from interrupted or stale Weave state: what a recovery pass
//! removes and reports. It never touches the live `node_modules`, never
//! deletes the backup unless asked, and never enables execution.
use vstd::prelude::*;
use crate::paths::{path_push, push_path};
use crate::text::{chars_of, extend_str, own, string_of};

verus! {

/// Options of a recovery pass.
#[derive(Debug)]
pub struct RecoverOpts {
    /// Also delete `.weave/node_modules.bak` (never the live `node_modules`).
    pub purge_backup: bool,
}

/// Report from a recovery pass.
#[derive(Debug)]
pub struct RecoverReport {
    /// Project root.
    pub root: String,
    /// Whether a leftover candidate directory was removed.
    pub removed_candidate: bool,
    /// Whether a leftover backup directory was removed.
    pub removed_backup: bool,
    /// Whether a dangling active pointer was cleared.
    pub cleared_dangling_active: bool,
    /// Whether the project was (re-)registered for shared-store GC.
    pub registered_project: bool,
    /// Actions taken or skipped, in order.
    pub actions: Vec<String>,
    /// Suggested next commands.
    pub next_steps: Vec<String>,
}

/// `<root>/.weave/<name>`.
pub open spec fn weave_path(root: Seq<char>, name: Seq<char>) -> Seq<char> {
    path_push(path_push(root, ".weave"@), name)
}

/// `<root>/.weave/<name>`.
pub fn weave_path_of(root: &str, name: &str) -> (r: String)
    ensures
        r@ == weave_path(root@, name@),
{
    let mut p = chars_of(root);
    push_path(&mut p, &chars_of(".weave"));
    push_path(&mut p, &chars_of(name));
    string_of(&p)
}

/// The leftover candidate tree of an interrupted switch.
pub open spec fn candidate_path(root: Seq<char>) -> Seq<char> {
    weave_path(root, "candidate"@)
}

/// The backup of the previous `node_modules` kept during activation.
pub open spec fn backup_path(root: Seq<char>) -> Seq<char> {
    weave_path(root, "node_modules.bak"@)
}

/// The actions a recovery pass reports, in order.
pub open spec fn recover_actions(
    root: Seq<char>,
    purge_backup: bool,
    candidate_exists: bool,
    backup_exists: bool,
    active: Option<Seq<char>>,
    active_record_ok: bool,
    registered: bool,
) -> Seq<Seq<char>> {
    let c = if candidate_exists {
        "removed leftover candidate "@ + candidate_path(root)
    } else {
        "no leftover candidate"@
    };
    let b = if !backup_exists {
        "no leftover backup"@
    } else if purge_backup {
        "removed leftover backup "@ + backup_path(root)
    } else {
        "left backup in place at "@ + backup_path(root) + " (pass --purge-backup to delete)"@
    };
    let a = match active {
        None => "no active environment pointer"@,
        Some(id) => if active_record_ok {
            "active environment "@ + id + " is consistent"@
        } else {
            "cleared dangling active pointer for missing environment "@ + id
        },
    };
    let base = seq![c, b, a];
    if registered {
        base.push("registered project for shared-store GC"@)
    } else {
        base
    }
}

/// The report of a recovery pass over the project at `root`, given what was
/// found there: whether a candidate tree and a backup exist, the active
/// environment id (if any) and whether its record loads, and whether the
/// project was registered. The caller removes exactly what the report says
/// was removed.
pub fn recover_report(
    root: String,
    opts: &RecoverOpts,
    candidate_exists: bool,
    backup_exists: bool,
    active: Option<&str>,
    active_record_ok: bool,
    registered: bool,
) -> (r: RecoverReport)
    ensures
        r.root@ == root@,
        r.removed_candidate == candidate_exists,
        r.removed_backup == (backup_exists && opts.purge_backup),
        r.cleared_dangling_active == (active is Some && !active_record_ok),
        r.registered_project == registered,
        r.actions.deep_view() == recover_actions(
            root@,
            opts.purge_backup,
            candidate_exists,
            backup_exists,
            match active {
                Some(a) => Some(a@),
                None => None,
            },
            active_record_ok,
            registered,
        ),
        r.next_steps.deep_view() == seq!["weave doctor --json"@, "weave switch --json"@, "weave status --json"@],
{
    let mut actions: Vec<String> = Vec::new();
    if candidate_exists {
        let mut m = chars_of("removed leftover candidate ");
        extend_str(&mut m, weave_path_of(root.as_str(), "candidate").as_str());
        actions.push(string_of(&m));
    } else {
        actions.push(own("no leftover candidate"));
    }
    if !backup_exists {
        actions.push(own("no leftover backup"));
    } else if opts.purge_backup {
        let mut m = chars_of("removed leftover backup ");
        extend_str(&mut m, weave_path_of(root.as_str(), "node_modules.bak").as_str());
        actions.push(string_of(&m));
    } else {
        let mut m = chars_of("left backup in place at ");
        extend_str(&mut m, weave_path_of(root.as_str(), "node_modules.bak").as_str());
        extend_str(&mut m, " (pass --purge-backup to delete)");
        actions.push(string_of(&m));
    }
    match active {
        None => actions.push(own("no active environment pointer")),
        Some(id) => {
            if active_record_ok {
                let mut m = chars_of("active environment ");
                extend_str(&mut m, id);
                extend_str(&mut m, " is consistent");
                actions.push(string_of(&m));
            } else {
                let mut m = chars_of("cleared dangling active pointer for missing environment ");
                extend_str(&mut m, id);
                actions.push(string_of(&m));
            }
        },
    }
    if registered {
        actions.push(own("registered project for shared-store GC"));
    }
    let next_steps = vec![own("weave doctor --json"), own("weave switch --json"), own("weave status --json")];
    proof {
        assert(next_steps.deep_view() =~= seq!["weave doctor --json"@, "weave switch --json"@, "weave status --json"@]);
        assert(actions.deep_view() =~= recover_actions(
            root@,
            opts.purge_backup,
            candidate_exists,
            backup_exists,
            match active {
                Some(a) => Some(a@),
                None => None,
            },
            active_record_ok,
            registered,
        ));
    }
    RecoverReport {
        root,
        removed_candidate: candidate_exists,
        removed_backup: backup_exists && opts.purge_backup,
        cleared_dangling_active: active.is_some() && !active_record_ok,
        registered_project: registered,
        actions,
        next_steps,
    }
}

} // verus!
