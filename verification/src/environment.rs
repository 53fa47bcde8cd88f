//! Environment identity and the decisions of `weave env`: records, lookup
//! by id, prefix or label, removal and pruning of owner-tagged records.
use vstd::prelude::*;
use crate::artifact::{hex_encode, hex_of, sha256, sha256_digest, ArtifactId};
use crate::error::Error;
use crate::fetch::push_part;
use crate::prebuild::HostPlatform;
use crate::text::{
    chars_of, copy_opt, debug_quoted, decimal, decimal_string, extend_str, opt_view, own, starts_with,
    str_eq, str_starts_with, string_of, trim, trim_chars,
};
use crate::textmap::{sorted_set, sort_dedup, TextMap};

verus! {

/// Stable environment identity: hex SHA-256 of the graph identity, the
/// platform and the materialization format.
#[derive(Debug, PartialEq, Eq, Hash)]
pub struct EnvironmentId {
    id: String,
}

impl View for EnvironmentId {
    type V = Seq<char>;

    closed spec fn view(&self) -> Seq<char> {
        self.id@
    }
}

/// Platform slice that participates in environment identity (Rust names).
#[derive(Debug)]
pub struct PlatformIdentity {
    /// OS family (`linux`, `macos`, `windows`, …).
    pub os: String,
    /// CPU architecture (`x86_64`, `aarch64`, …).
    pub arch: String,
}

/// Bytes hashed for an environment id.
pub open spec fn env_id_bytes(graph_identity: Seq<char>, os: Seq<char>, arch: Seq<char>) -> Seq<u8> {
    vstd::utf8::encode_utf8("weave-env-v1"@) + seq![0u8] + vstd::utf8::encode_utf8(graph_identity)
        + seq![0u8] + vstd::utf8::encode_utf8(os) + seq![0u8] + vstd::utf8::encode_utf8(arch) + seq![0u8]
        + vstd::utf8::encode_utf8("4"@)
}

/// An environment id tells platforms apart: for one graph identity, the
/// bytes hashed for two platforms agree only when their OS names agree and
/// their architecture names agree, so an environment built for one
/// architecture is never filed under another's id bytes.
pub proof fn lemma_env_id_platform_injective(g: Seq<char>, os1: Seq<char>, arch1: Seq<char>, os2: Seq<char>, arch2: Seq<char>)
    ensures
        (os1 == os2 && env_id_bytes(g, os1, arch1) == env_id_bytes(g, os2, arch2)) ==> arch1 == arch2,
        (arch1 == arch2 && env_id_bytes(g, os1, arch1) == env_id_bytes(g, os2, arch2)) ==> os1 == os2,
{
    let z = seq![0u8];
    let head = vstd::utf8::encode_utf8("weave-env-v1"@) + z + vstd::utf8::encode_utf8(g) + z;
    let tail = vstd::utf8::encode_utf8("4"@);
    if os1 == os2 && env_id_bytes(g, os1, arch1) == env_id_bytes(g, os2, arch2) {
        let p = head + vstd::utf8::encode_utf8(os1) + z;
        assert(env_id_bytes(g, os1, arch1) =~= p + vstd::utf8::encode_utf8(arch1) + (z + tail));
        assert(env_id_bytes(g, os2, arch2) =~= p + vstd::utf8::encode_utf8(arch2) + (z + tail));
        crate::text::lemma_utf8_framed(p, arch1, arch2, z + tail);
    }
    if arch1 == arch2 && env_id_bytes(g, os1, arch1) == env_id_bytes(g, os2, arch2) {
        let s = z + vstd::utf8::encode_utf8(arch1) + z + tail;
        assert(env_id_bytes(g, os1, arch1) =~= head + vstd::utf8::encode_utf8(os1) + s);
        assert(env_id_bytes(g, os2, arch2) =~= head + vstd::utf8::encode_utf8(os2) + s);
        crate::text::lemma_utf8_framed(head, os1, os2, s);
    }
}

impl EnvironmentId {
    /// An id as recorded.
    pub fn new(id: String) -> (r: EnvironmentId)
        ensures
            r@ == id@,
    {
        EnvironmentId { id }
    }

    /// Borrow the id string.
    pub fn as_str(&self) -> (r: &str)
        ensures
            r@ == self@,
    {
        self.id.as_str()
    }

    /// A copy of this id.
    pub fn copy(&self) -> (r: EnvironmentId)
        ensures
            r@ == self@,
    {
        EnvironmentId { id: own(self.id.as_str()) }
    }

    /// Derive the id of an environment of the graph with identity
    /// `graph_identity` on `platform`, in the current materialization format.
    pub fn derive(graph_identity: &str, platform: &PlatformIdentity) -> (r: EnvironmentId)
        ensures
            r@ == hex_of(sha256(env_id_bytes(graph_identity@, platform.os@, platform.arch@))),
    {
        let mut buf: Vec<u8> = Vec::new();
        push_part(&mut buf, "weave-env-v1");
        push_part(&mut buf, graph_identity);
        push_part(&mut buf, platform.os.as_str());
        push_part(&mut buf, platform.arch.as_str());
        let v = "4".as_bytes();
        let ghost start = buf@;
        let mut i: usize = 0;
        while i < v.len()
            invariant
                i <= v@.len(),
                v@ == vstd::utf8::encode_utf8("4"@),
                buf@ == start + v@.take(i as int),
            decreases v@.len() - i,
        {
            buf.push(v[i]);
            i += 1;
            assert(buf@ =~= start + v@.take(i as int));
        }
        assert(v@.take(v@.len() as int) =~= v@);
        assert(buf@ =~= env_id_bytes(graph_identity@, platform.os@, platform.arch@));
        let d = sha256_digest(buf.as_slice());
        let ds = d.as_slice();
        assert(ds@ == d@);
        EnvironmentId { id: hex_encode(ds) }
    }
}

impl PlatformIdentity {
    /// The host platform as the npm-token view used for os/cpu filtering.
    pub fn to_host(&self) -> (r: HostPlatform)
        ensures
            r.os@ == crate::prebuild::npm_os_for(self.os@),
            r.cpu@ == crate::prebuild::npm_cpu_for(self.arch@),
    {
        HostPlatform::from_rust(self.os.as_str(), self.arch.as_str())
    }
}

/// Persisted environment metadata.
#[derive(Debug)]
pub struct EnvironmentRecord {
    /// Environment id.
    pub id: EnvironmentId,
    /// Graph identity that produced this environment.
    pub graph_identity: String,
    /// Platform identity.
    pub platform: PlatformIdentity,
    /// Materialization format version.
    pub materialization_version: String,
    /// npm lockfileVersion.
    pub lockfile_version: u32,
    /// Package count (non-root).
    pub package_count: usize,
    /// Optional human label.
    pub label: Option<String>,
    /// Caller-supplied owner/session id (never inferred).
    pub owner: Option<String>,
    /// Creation stamp.
    pub created_at: Option<String>,
    /// Last successful activation stamp.
    pub last_activated_at: Option<String>,
    /// Package key → artifact id.
    pub artifacts: TextMap<String>,
}

/// Options when creating or refreshing an environment record.
#[derive(Debug)]
pub struct CreateEnvironmentOpts {
    /// Label (callers default it to the git branch).
    pub label: Option<String>,
    /// Explicit owner/session, never inferred.
    pub owner: Option<String>,
}

/// `.weave/environments/` of one project.
#[derive(Debug)]
pub struct EnvironmentStore {
    root: String,
}

impl EnvironmentStore {
    /// The environment store of the project at `project_root`.
    pub fn open(project_root: String) -> (r: EnvironmentStore)
        ensures
            r.root()@ == project_root@,
    {
        EnvironmentStore { root: project_root }
    }

    /// Project root.
    pub closed spec fn root(&self) -> String {
        self.root
    }

    /// Project root.
    pub fn project_root(&self) -> (r: &str)
        ensures
            r@ == self.root()@,
    {
        self.root.as_str()
    }
}

// ---------------------------------------------------------------------------
// Records
// ---------------------------------------------------------------------------

/// `a`, else `b`.
pub open spec fn or_else(a: Option<Seq<char>>, b: Option<Seq<char>>) -> Option<Seq<char>> {
    match a {
        Some(x) => Some(x),
        None => b,
    }
}

/// Copy an optional string, falling back to another.
fn first_some(a: &Option<String>, b: Option<&Option<String>>) -> (r: Option<String>)
    ensures
        opt_view(r) == or_else(
            opt_view(*a),
            match b {
                Some(x) => opt_view(*x),
                None => None,
            },
        ),
{
    match a {
        Some(x) => Some(own(x.as_str())),
        None => match b {
            Some(x) => copy_opt(x),
            None => None,
        },
    }
}

/// The record of a (re)created environment: label and owner from the
/// options, else from the prior record with the same id; the prior creation
/// stamp is kept (else `now`), and so is the prior activation stamp.
pub fn environment_record(
    id: EnvironmentId,
    graph_identity: &str,
    platform: PlatformIdentity,
    lockfile_version: u32,
    package_count: usize,
    artifacts: &TextMap<ArtifactId>,
    opts: &CreateEnvironmentOpts,
    prior: Option<&EnvironmentRecord>,
    now: &str,
) -> (r: EnvironmentRecord)
    requires
        artifacts.wf(),
    ensures
        r.id@ == id@,
        r.graph_identity@ == graph_identity@,
        r.platform.os@ == platform.os@,
        r.platform.arch@ == platform.arch@,
        r.materialization_version@ == "4"@,
        r.lockfile_version == lockfile_version,
        r.package_count == package_count,
        opt_view(r.label) == or_else(
            opt_view(opts.label),
            match prior {
                Some(p) => opt_view(p.label),
                None => None,
            },
        ),
        opt_view(r.owner) == or_else(
            opt_view(opts.owner),
            match prior {
                Some(p) => opt_view(p.owner),
                None => None,
            },
        ),
        opt_view(r.created_at) == Some(
            match prior {
                Some(p) => match opt_view(p.created_at) {
                    Some(c) => c,
                    None => now@,
                },
                None => now@,
            },
        ),
        opt_view(r.last_activated_at) == match prior {
            Some(p) => opt_view(p.last_activated_at),
            None => None,
        },
        r.artifacts.wf(),
        r.artifacts.spec_entries() == artifacts.spec_entries(),
{
    let label = first_some(&opts.label, match prior { Some(p) => Some(&p.label), None => None });
    let owner = first_some(&opts.owner, match prior { Some(p) => Some(&p.owner), None => None });
    let created = match prior {
        Some(p) => match &p.created_at {
            Some(c) => own(c.as_str()),
            None => own(now),
        },
        None => own(now),
    };
    let last = match prior {
        Some(p) => copy_opt(&p.last_activated_at),
        None => None,
    };
    let map = artifacts.id_texts();
    EnvironmentRecord {
        id,
        graph_identity: own(graph_identity),
        platform,
        materialization_version: own(crate::config::materialization_version()),
        lockfile_version,
        package_count,
        label,
        owner,
        created_at: Some(created),
        last_activated_at: last,
        artifacts: map,
    }
}

// ---------------------------------------------------------------------------
// Lookup and removal
// ---------------------------------------------------------------------------

/// A record answers to `target`: its label, its id, or a prefix of its id.
pub open spec fn answers_to(e: EnvironmentRecord, target: Seq<char>) -> bool {
    opt_view(e.label) == Some(target) || e.id@ == target || starts_with(e.id@, target)
}

/// Indices of the records answering to `target`, in order.
pub open spec fn matching(envs: Seq<EnvironmentRecord>, target: Seq<char>) -> Seq<int>
    decreases envs.len(),
{
    if envs.len() == 0 {
        Seq::empty()
    } else if answers_to(envs.last(), target) {
        matching(envs.drop_last(), target).push(envs.len() - 1)
    } else {
        matching(envs.drop_last(), target)
    }
}

/// Resolve `target` (id, id prefix or label) to the one record answering to
/// it; none or several is an error.
pub fn resolve_environment(envs: &Vec<EnvironmentRecord>, target: &str, dir: &str) -> (r: Result<usize, Error>)
    ensures
        ({
            let m = matching(envs@, target@);
            match r {
                Ok(i) => m.len() == 1 && i == m[0],
                Err(e) => m.len() != 1 && (e matches Error::InvalidState { path, reason } && path@
                    == dir@ && reason@ == if m.len() == 0 {
                    "no environment matches '"@ + target@ + "'"@
                } else {
                    "ambiguous environment target '"@ + target@ + "' matches "@ + decimal(m.len())
                        + " records; use a longer id"@
                }),
            }
        }),
{
    let mut found: usize = 0;
    let mut first: usize = 0;
    let mut i: usize = 0;
    assert(envs@.take(0) =~= Seq::<EnvironmentRecord>::empty());
    while i < envs.len()
        invariant
            i <= envs@.len(),
            found == matching(envs@.take(i as int), target@).len(),
            found <= i,
            found >= 1 ==> first == matching(envs@.take(i as int), target@)[0],
            forall|q: int|
                0 <= q < matching(envs@.take(i as int), target@).len() ==> 0 <= #[trigger] matching(
                    envs@.take(i as int),
                    target@,
                )[q] < i,
        decreases envs@.len() - i,
    {
        let e = &envs[i];
        assert(envs@.take(i + 1).drop_last() =~= envs@.take(i as int));
        assert(envs@.take(i + 1).last() == *e);
        let hit = match &e.label {
            Some(l) => str_eq(l.as_str(), target),
            None => false,
        } || str_eq(e.id.as_str(), target) || str_starts_with(e.id.as_str(), target);
        if hit {
            if found == 0 {
                first = i;
            }
            found += 1;
        }
        i += 1;
    }
    assert(envs@.take(envs@.len() as int) =~= envs@);
    if found == 1 {
        Ok(first)
    } else if found == 0 {
        let mut m = chars_of("no environment matches '");
        extend_str(&mut m, target);
        extend_str(&mut m, "'");
        Err(Error::InvalidState { path: own(dir), reason: string_of(&m) })
    } else {
        let mut m = chars_of("ambiguous environment target '");
        extend_str(&mut m, target);
        extend_str(&mut m, "' matches ");
        extend_str(&mut m, decimal_string(found as u64).as_str());
        extend_str(&mut m, " records; use a longer id");
        Err(Error::InvalidState { path: own(dir), reason: string_of(&m) })
    }
}

/// Refuse to remove the active environment.
pub fn check_removable(id: &EnvironmentId, active: Option<&EnvironmentId>, path: &str) -> (r: Result<(), Error>)
    ensures
        match active {
            Some(a) if a@ == id@ => r matches Err(Error::InvalidState { path: p, reason }) && p@ == path@
                && reason@ == "refusing to remove active environment "@ + id@
                + "; switch away or deactivate first"@,
            _ => r is Ok,
        },
{
    match active {
        Some(a) => {
            if str_eq(a.as_str(), id.as_str()) {
                let mut m = chars_of("refusing to remove active environment ");
                extend_str(&mut m, id.as_str());
                extend_str(&mut m, "; switch away or deactivate first");
                return Err(Error::InvalidState { path: own(path), reason: string_of(&m) });
            }
            Ok(())
        },
        None => Ok(()),
    }
}

} // verus!

verus! {

// ---------------------------------------------------------------------------
// `weave env` commands
// ---------------------------------------------------------------------------

/// Options of `weave env create`.
#[derive(Debug)]
pub struct EnvCreateOpts {
    /// Override label (default: the current git branch when available).
    pub label: Option<String>,
    /// Explicit owner/session id (never inferred).
    pub owner: Option<String>,
}

/// Result of removing one environment record.
#[derive(Debug)]
pub struct EnvRemoveReport {
    /// Removed environment id.
    pub removed_id: String,
    /// Owner that was recorded, if any.
    pub owner: Option<String>,
    /// Label that was recorded, if any.
    pub label: Option<String>,
}

/// Options of `weave env prune`.
#[derive(Debug)]
pub struct EnvPruneOpts {
    /// Required: only records with this exact owner are eligible.
    pub owner: String,
    /// Only records last activated (else created) at least this many seconds
    /// ago are eligible; records without a readable stamp are eligible.
    pub older_than_secs: Option<u64>,
    /// Report without deleting.
    pub dry_run: bool,
}

/// Result of pruning owner-tagged environment records.
#[derive(Debug)]
pub struct EnvPruneReport {
    /// Owner filter applied.
    pub owner: String,
    /// Whether this was a dry run.
    pub dry_run: bool,
    /// Ids removed (or that would be), sorted.
    pub removed_ids: Vec<String>,
    /// Active environment skipped, when owned by the same owner.
    pub skipped_active: Option<String>,
    /// Owner-matching records too recent to prune.
    pub skipped_too_recent: usize,
}

/// Machine-readable list entry of `weave env list` / status.
#[derive(Debug)]
pub struct EnvListEntry {
    /// Environment id.
    pub id: String,
    /// Optional label.
    pub label: Option<String>,
    /// Optional owner/session.
    pub owner: Option<String>,
    /// Package count.
    pub package_count: usize,
    /// Graph identity.
    pub graph_identity: String,
    /// Whether this is the active environment.
    pub active: bool,
    /// Whether the graph identity matches the current lockfile, when known.
    pub matches_lockfile: Option<bool>,
    /// Creation stamp.
    pub created_at: Option<String>,
    /// Last activation stamp.
    pub last_activated_at: Option<String>,
}

/// The report of removing `record`.
pub fn remove_report(record: &EnvironmentRecord) -> (r: EnvRemoveReport)
    ensures
        r.removed_id@ == record.id@,
        opt_view(r.owner) == opt_view(record.owner),
        opt_view(r.label) == opt_view(record.label),
{
    EnvRemoveReport {
        removed_id: own(record.id.as_str()),
        owner: copy_opt(&record.owner),
        label: copy_opt(&record.label),
    }
}

/// The list entry of `env`, given the active id and the current lockfile's
/// graph identity (when known).
pub fn entry_from_record(env: &EnvironmentRecord, active: Option<&EnvironmentId>, graph_id: Option<&str>) -> (r: EnvListEntry)
    ensures
        r.id@ == env.id@,
        opt_view(r.label) == opt_view(env.label),
        opt_view(r.owner) == opt_view(env.owner),
        r.package_count == env.package_count,
        r.graph_identity@ == env.graph_identity@,
        r.active == (active matches Some(a) && a@ == env.id@),
        r.matches_lockfile == match graph_id {
            Some(g) => Some(g@ == env.graph_identity@),
            None => None,
        },
        opt_view(r.created_at) == opt_view(env.created_at),
        opt_view(r.last_activated_at) == opt_view(env.last_activated_at),
{
    let is_active = match active {
        Some(a) => str_eq(a.as_str(), env.id.as_str()),
        None => false,
    };
    let matches_lockfile = match graph_id {
        Some(g) => Some(str_eq(g, env.graph_identity.as_str())),
        None => None,
    };
    EnvListEntry {
        id: own(env.id.as_str()),
        label: copy_opt(&env.label),
        owner: copy_opt(&env.owner),
        package_count: env.package_count,
        graph_identity: own(env.graph_identity.as_str()),
        active: is_active,
        matches_lockfile,
        created_at: copy_opt(&env.created_at),
        last_activated_at: copy_opt(&env.last_activated_at),
    }
}

/// Value of a decimal digit string.
pub open spec fn digits_value(s: Seq<char>) -> nat
    decreases s.len(),
{
    if s.len() == 0 {
        0
    } else {
        digits_value(s.drop_last()) * 10 + (s.last() as nat - 48) as nat
    }
}

/// Every character is a decimal digit.
pub open spec fn all_digits(d: Seq<char>) -> bool {
    forall|i: int| 0 <= i < d.len() ==> '0' <= #[trigger] d[i] <= '9'
}

/// The text after an optional leading `+`.
pub open spec fn unsigned_part(s: Seq<char>) -> Seq<char> {
    if s.len() > 0 && s[0] == '+' {
        s.skip(1)
    } else {
        s
    }
}

/// `str::parse::<u64>`: an optional `+`, then one or more decimal digits,
/// whose value fits in 64 bits.
pub open spec fn parse_u64_spec(s: Seq<char>) -> Option<u64> {
    let d = unsigned_part(s);
    if d.len() > 0 && all_digits(d) && digits_value(d) <= u64::MAX {
        Some(digits_value(d) as u64)
    } else {
        None
    }
}

/// Parse a `u64` as `str::parse` does.
pub fn parse_u64(s: &str) -> (r: Option<u64>)
    ensures
        r == parse_u64_spec(s@),
{
    let c = chars_of(s);
    let start: usize = if c.len() > 0 && c[0] == '+' {
        1
    } else {
        0
    };
    let ghost d = c@.skip(start as int);
    assert(d == unsigned_part(s@)) by {
        if start == 0 {
            assert(c@.skip(0) =~= c@);
        }
    }
    if start >= c.len() {
        assert(d.len() == 0);
        return None;
    }
    let mut v: u64 = 0;
    let mut i: usize = start;
    while i < c.len()
        invariant
            start <= i <= c@.len(),
            start < c@.len(),
            d == c@.skip(start as int),
            c@ == s@,
            d == unsigned_part(s@),
            d.len() == c@.len() - start,
            forall|k: int| 0 <= k < i - start ==> '0' <= #[trigger] d[k] <= '9',
            v as nat == digits_value(d.take(i - start)),
        decreases c@.len() - i,
    {
        let ch = c[i];
        if !('0' <= ch && ch <= '9') {
            assert(!('0' <= d[i - start] <= '9'));
            return None;
        }
        let digit = (ch as u32 - 48) as u64;
        assert(d.take(i + 1 - start).drop_last() =~= d.take(i - start));
        assert(d.take(i + 1 - start).last() == ch);
        if v > (u64::MAX - digit) / 10 {
            proof {
                assert(digits_value(d.take(i + 1 - start)) == v * 10 + digit);
                assert(v * 10 + digit > u64::MAX) by (nonlinear_arith)
                    requires
                        v > (u64::MAX - digit) / 10,
                        digit <= 9,
                ;
                lemma_digits_grow(d, (i + 1 - start) as int);
            }
            return None;
        }
        assert(v * 10 + digit <= u64::MAX) by (nonlinear_arith)
            requires
                v <= (u64::MAX - digit) / 10,
                digit <= 9,
        ;
        v = v * 10 + digit;
        i += 1;
    }
    assert(d.take(c@.len() - start) =~= d);
    Some(v)
}

/// The value of a digit string is at least that of any prefix.
proof fn lemma_digits_grow(d: Seq<char>, n: int)
    requires
        0 <= n <= d.len(),
        forall|k: int| 0 <= k < n ==> '0' <= #[trigger] d[k] <= '9',
    ensures
        digits_value(d.take(n)) <= digits_value(d) || exists|k: int|
            n <= k < d.len() && !('0' <= #[trigger] d[k] <= '9'),
    decreases d.len() - n,
{
    if n < d.len() && '0' <= d[n] <= '9' {
        lemma_digits_grow(d, n + 1);
        assert(d.take(n + 1).drop_last() =~= d.take(n));
    } else if n == d.len() {
        assert(d.take(n) =~= d);
    }
}

/// The stamp a record is aged by: last activation, else creation, when it
/// parses as seconds.
pub open spec fn stamp_of(e: EnvironmentRecord) -> Option<u64> {
    match or_else(opt_view(e.last_activated_at), opt_view(e.created_at)) {
        Some(s) => parse_u64_spec(s),
        None => None,
    }
}

/// How pruning treats one record.
pub enum PruneOutcome {
    /// Another owner (or none): left alone.
    NotOwned,
    /// The active environment: skipped.
    Active,
    /// Too recent: skipped.
    TooRecent,
    /// Removed.
    Removed,
}

/// How pruning treats `e` for `owner`, the active id, an age limit and `now`.
pub open spec fn prune_outcome(e: EnvironmentRecord, owner: Seq<char>, active: Option<Seq<char>>, older_than: Option<u64>, now: u64) -> PruneOutcome {
    if opt_view(e.owner) != Some(owner) {
        PruneOutcome::NotOwned
    } else if active == Some(e.id@) {
        PruneOutcome::Active
    } else if older_than is Some && stamp_of(e) is Some && (if now >= stamp_of(e)->0 {
        now - stamp_of(e)->0
    } else {
        0
    }) < older_than->0 {
        PruneOutcome::TooRecent
    } else {
        PruneOutcome::Removed
    }
}

/// Ids of the records pruning removes, in list order.
pub open spec fn pruned_ids(envs: Seq<EnvironmentRecord>, owner: Seq<char>, active: Option<Seq<char>>, older_than: Option<u64>, now: u64) -> Seq<Seq<char>>
    decreases envs.len(),
{
    if envs.len() == 0 {
        Seq::empty()
    } else {
        let p = pruned_ids(envs.drop_last(), owner, active, older_than, now);
        if prune_outcome(envs.last(), owner, active, older_than, now) is Removed {
            p.push(envs.last().id@)
        } else {
            p
        }
    }
}

/// Number of records pruning skips as too recent.
pub open spec fn too_recent_count(envs: Seq<EnvironmentRecord>, owner: Seq<char>, active: Option<Seq<char>>, older_than: Option<u64>, now: u64) -> nat
    decreases envs.len(),
{
    if envs.len() == 0 {
        0
    } else {
        too_recent_count(envs.drop_last(), owner, active, older_than, now) + if prune_outcome(
            envs.last(),
            owner,
            active,
            older_than,
            now,
        ) is TooRecent {
            1nat
        } else {
            0nat
        }
    }
}

/// Index of the first record from `i` on satisfying `p`, or the length.
pub open spec fn first_where(envs: Seq<EnvironmentRecord>, p: spec_fn(EnvironmentRecord) -> bool, i: int) -> int
    decreases envs.len() - i,
{
    if i < 0 || i >= envs.len() {
        envs.len() as int
    } else if p(envs[i]) {
        i
    } else {
        first_where(envs, p, i + 1)
    }
}

/// The record is labelled `branch`.
pub open spec fn labelled(branch: Seq<char>) -> spec_fn(EnvironmentRecord) -> bool {
    |e: EnvironmentRecord| opt_view(e.label) == Some(branch)
}

/// The record has id `id`.
pub open spec fn with_id(id: Seq<char>) -> spec_fn(EnvironmentRecord) -> bool {
    |e: EnvironmentRecord| e.id@ == id
}

/// The environment associated with the current git branch: the id of the
/// first record labelled with it.
pub fn branch_association(envs: &Vec<EnvironmentRecord>, branch: Option<&str>) -> (r: Option<String>)
    ensures
        match branch {
            None => r is None,
            Some(b) => {
                let k = first_where(envs@, labelled(b@), 0);
                if k < envs@.len() {
                    r matches Some(id) && id@ == envs@[k].id@
                } else {
                    r is None
                }
            },
        },
{
    let b = match branch {
        None => {
            return None;
        },
        Some(b) => b,
    };
    let mut i: usize = 0;
    while i < envs.len()
        invariant
            i <= envs@.len(),
            branch == Some(b),
            first_where(envs@, labelled(b@), 0) == first_where(envs@, labelled(b@), i as int),
        decreases envs@.len() - i,
    {
        let hit = match &envs[i].label {
            Some(l) => str_eq(l.as_str(), b),
            None => false,
        };
        if hit {
            return Some(own(envs[i].id.as_str()));
        }
        i += 1;
    }
    None
}

/// Whether the active environment was built from the lockfile whose graph
/// has identity `graph_identity`; unknown without both, or when no record
/// has the active id.
pub fn active_matches_lockfile(envs: &Vec<EnvironmentRecord>, active: Option<&str>, graph_identity: Option<&str>) -> (r: Option<bool>)
    ensures
        match (active, graph_identity) {
            (Some(a), Some(g)) => {
                let k = first_where(envs@, with_id(a@), 0);
                if k < envs@.len() {
                    r == Some(envs@[k].graph_identity@ == g@)
                } else {
                    r is None
                }
            },
            _ => r is None,
        },
{
    let (a, g) = match (active, graph_identity) {
        (Some(a), Some(g)) => (a, g),
        _ => {
            return None;
        },
    };
    let mut i: usize = 0;
    while i < envs.len()
        invariant
            i <= envs@.len(),
            active == Some(a),
            graph_identity == Some(g),
            first_where(envs@, with_id(a@), 0) == first_where(envs@, with_id(a@), i as int),
        decreases envs@.len() - i,
    {
        if str_eq(envs[i].id.as_str(), a) {
            return Some(str_eq(envs[i].graph_identity.as_str(), g));
        }
        i += 1;
    }
    None
}

/// Pruning never removes the active environment, and each id it removes
/// is the id of a record of the given owner.
pub proof fn lemma_prune_spares_active_and_foreign(
    envs: Seq<EnvironmentRecord>,
    owner: Seq<char>,
    active: Option<Seq<char>>,
    older_than: Option<u64>,
    now: u64,
    x: Seq<char>,
)
    requires
        pruned_ids(envs, owner, active, older_than, now).contains(x),
    ensures
        active != Some(x),
        exists|i: int| 0 <= i < envs.len() && (#[trigger] envs[i]).id@ == x && opt_view(envs[i].owner) == Some(owner),
    decreases envs.len(),
{
    let rest = envs.drop_last();
    let p = pruned_ids(rest, owner, active, older_than, now);
    if p.contains(x) {
        lemma_prune_spares_active_and_foreign(rest, owner, active, older_than, now, x);
        let i = choose|i: int| 0 <= i < rest.len() && (#[trigger] rest[i]).id@ == x && opt_view(rest[i].owner) == Some(owner);
        assert(envs[i] == rest[i]);
    } else {
        let k = envs.len() - 1;
        assert(envs[k] == envs.last());
    }
}

/// Whether some record is the owner's active environment.
pub open spec fn active_skipped(envs: Seq<EnvironmentRecord>, owner: Seq<char>, active: Option<Seq<char>>) -> bool {
    exists|i: int| 0 <= i < envs.len() && prune_outcome(#[trigger] envs[i], owner, active, None, 0) is Active
}

/// Decide what pruning removes among `envs` (the records, by id): only
/// records owned by `opts.owner`, never the active one, and with an age
/// limit only records at least that old (or without a readable stamp). An
/// empty owner is refused: owners are never inferred.
pub fn plan_env_prune(
    envs: &Vec<EnvironmentRecord>,
    opts: &EnvPruneOpts,
    active: Option<&EnvironmentId>,
    now: u64,
    start: &str,
) -> (r: Result<EnvPruneReport, Error>)
    ensures
        ({
            let act = match active {
                Some(a) => Some(a@),
                None => None,
            };
            if trim(opts.owner@).len() == 0 {
                r matches Err(Error::InvalidState { path, reason }) && path@ == start@ && reason@
                    == "env prune requires a non-empty --owner (never inferred)"@
            } else {
                r matches Ok(rep) && rep.owner@ == opts.owner@ && rep.dry_run == opts.dry_run
                    && rep.removed_ids.deep_view() == crate::textmap::sorted_list(
                    pruned_ids(envs@, opts.owner@, act, opts.older_than_secs, now),
                ) && rep.skipped_too_recent == too_recent_count(
                    envs@,
                    opts.owner@,
                    act,
                    opts.older_than_secs,
                    now,
                ) && (rep.skipped_active is Some <==> active_skipped(envs@, opts.owner@, act))
                    && (rep.skipped_active matches Some(s) ==> act == Some(s@))
            }
        }),
{
    let oc = chars_of(opts.owner.as_str());
    if trim_chars(&oc).len() == 0 {
        return Err(
            Error::InvalidState {
                path: own(start),
                reason: own("env prune requires a non-empty --owner (never inferred)"),
            },
        );
    }
    let ghost act = match active {
        Some(a) => Some(a@),
        None => None,
    };
    let mut removed: Vec<String> = Vec::new();
    let mut skipped_active: Option<String> = None;
    let mut too_recent: usize = 0;
    let mut i: usize = 0;
    assert(envs@.take(0) =~= Seq::<EnvironmentRecord>::empty());
    assert(removed.deep_view() =~= Seq::<Seq<char>>::empty());
    while i < envs.len()
        invariant
            i <= envs@.len(),
            act == match active {
                Some(a) => Some(a@),
                None => None,
            },
            removed.deep_view() == pruned_ids(envs@.take(i as int), opts.owner@, act, opts.older_than_secs, now),
            too_recent == too_recent_count(envs@.take(i as int), opts.owner@, act, opts.older_than_secs, now),
            too_recent <= i,
            skipped_active is Some <==> active_skipped(envs@.take(i as int), opts.owner@, act),
            skipped_active matches Some(s) ==> act == Some(s@),
        decreases envs@.len() - i,
    {
        let e = &envs[i];
        let ghost t = envs@.take(i as int);
        let ghost t1 = envs@.take(i + 1);
        assert(t1.drop_last() =~= t);
        assert(t1.last() == *e);
        assert(t1[i as int] == *e);
        assert forall|k: int| 0 <= k < i implies t1[k] == t[k] by {}
        let owned = match &e.owner {
            Some(o) => str_eq(o.as_str(), opts.owner.as_str()),
            None => false,
        };
        if !owned {
            assert(prune_outcome(*e, opts.owner@, act, None, 0) is NotOwned);
            assert(active_skipped(t1, opts.owner@, act) == active_skipped(t, opts.owner@, act));
            i += 1;
            continue;
        }
        let is_active = match active {
            Some(a) => str_eq(a.as_str(), e.id.as_str()),
            None => false,
        };
        if is_active {
            skipped_active = Some(own(e.id.as_str()));
            assert(prune_outcome(t1[i as int], opts.owner@, act, None, 0) is Active);
            i += 1;
            continue;
        }
        assert(!(prune_outcome(*e, opts.owner@, act, None, 0) is Active));
        assert(active_skipped(t1, opts.owner@, act) == active_skipped(t, opts.owner@, act));
        let mut recent = false;
        match opts.older_than_secs {
            Some(max_age) => {
                let stamp = match &e.last_activated_at {
                    Some(s) => parse_u64(s.as_str()),
                    None => match &e.created_at {
                        Some(s) => parse_u64(s.as_str()),
                        None => None,
                    },
                };
                match stamp {
                    Some(ts) => {
                        let age = if now >= ts {
                            now - ts
                        } else {
                            0
                        };
                        if age < max_age {
                            recent = true;
                        }
                    },
                    None => {},
                }
            },
            None => {},
        }
        if recent {
            too_recent += 1;
        } else {
            let ghost before = removed.deep_view();
            removed.push(own(e.id.as_str()));
            assert(removed.deep_view() =~= before.push(e.id@));
        }
        i += 1;
    }
    assert(envs@.take(envs@.len() as int) =~= envs@);
    Ok(
        EnvPruneReport {
            owner: own(opts.owner.as_str()),
            dry_run: opts.dry_run,
            removed_ids: crate::textmap::sort_strings(&removed),
            skipped_active,
            skipped_too_recent: too_recent,
        },
    )
}

} // verus!
