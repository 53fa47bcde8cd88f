//! Safe extraction of npm package tarballs: what each archive entry may
//! become under the destination. npm wraps contents in a top-level
//! `package/` directory, which is stripped; entries that would land outside
//! the destination, and symlinks that point outside the package, are refused.
use vstd::prelude::*;
use std::io::Read;
use crate::error::Error;
use crate::paths::{components, escapes, is_absolute, push_normals, safe_join, strip_package_prefix, strip_package_prefix_spec, validate_symlink_target};
use crate::text::{chars_of, opt_view, own};

verus! {

/// Kind of an archive entry.
#[derive(Debug, Clone, Copy, PartialEq, Eq, Structural)]
pub enum TarEntryKind {
    /// A directory.
    Directory,
    /// A regular file.
    Regular,
    /// A hard link (its data is written as a file).
    HardLink,
    /// A symbolic link.
    Symlink,
    /// Anything else (devices, fifos, …).
    Other,
}

/// What to do with one archive entry.
#[derive(Debug)]
pub enum ExtractStep {
    /// Nothing (the wrapper directory itself, or an uncommon entry type).
    Skip,
    /// Create the directory.
    CreateDir { path: String },
    /// Write the entry's data to the file.
    WriteFile { path: String },
    /// Create a symlink at `path` pointing at `target`.
    Symlink { path: String, target: String },
}

/// A step as plain values.
pub enum StepModel {
    Skip,
    CreateDir(Seq<char>),
    WriteFile(Seq<char>),
    Symlink(Seq<char>, Seq<char>),
}

impl View for ExtractStep {
    type V = StepModel;

    open spec fn view(&self) -> StepModel {
        match self {
            ExtractStep::Skip => StepModel::Skip,
            ExtractStep::CreateDir { path } => StepModel::CreateDir(path@),
            ExtractStep::WriteFile { path } => StepModel::WriteFile(path@),
            ExtractStep::Symlink { path, target } => StepModel::Symlink(path@, target@),
        }
    }
}

/// The step for an entry at `entry_path` of kind `kind` (with link target
/// `link` for symlinks) extracted into `dest`, or the path and reason it is
/// refused for.
pub open spec fn extract_step_spec(dest: Seq<char>, entry_path: Seq<char>, kind: TarEntryKind, link: Option<Seq<char>>) -> Result<StepModel, (Seq<char>, Seq<char>)> {
    match strip_package_prefix_spec(entry_path) {
        Err(()) => Err((dest, "refusing unsafe tar path component in "@ + entry_path)),
        Ok(rel) => if rel.len() == 0 {
            Ok(StepModel::Skip)
        } else if escapes(rel) {
            Err((rel, "path traversal rejected while extracting to "@ + dest))
        } else {
            let out = push_normals(dest, components(rel));
            match kind {
                TarEntryKind::Directory => Ok(StepModel::CreateDir(out)),
                TarEntryKind::Regular | TarEntryKind::HardLink => Ok(StepModel::WriteFile(out)),
                TarEntryKind::Other => Ok(StepModel::Skip),
                TarEntryKind::Symlink => match link {
                    None => Err((out, "symlink missing target"@)),
                    Some(t) => if escapes(t) {
                        Err((
                            t,
                            if is_absolute(t) {
                                "absolute symlink targets are not allowed"@
                            } else {
                                "symlink target escapes package root"@
                            },
                        ))
                    } else {
                        Ok(StepModel::Symlink(out, t))
                    },
                },
            }
        },
    }
}

/// Decide what the archive entry at `entry_path` becomes under `dest`.
/// Refusals are `MaterializationFailed` errors.
pub fn extract_step(dest: &str, entry_path: &str, kind: TarEntryKind, link: Option<&str>) -> (r: Result<ExtractStep, Error>)
    ensures
        match (r, extract_step_spec(
            dest@,
            entry_path@,
            kind,
            match link {
                Some(t) => Some(t@),
                None => None,
            },
        )) {
            (Ok(s), Ok(m)) => s@ == m,
            (Err(e), Err((p, m))) => e matches Error::MaterializationFailed { path, reason } && path@ == p
                && reason@ == m,
            _ => false,
        },
{
    let rel = match strip_package_prefix(entry_path) {
        Ok(rel) => rel,
        Err(reason) => {
            return Err(Error::MaterializationFailed { path: own(dest), reason });
        },
    };
    if chars_of(rel.as_str()).len() == 0 {
        return Ok(ExtractStep::Skip);
    }
    let out = match safe_join(dest, rel.as_str()) {
        Ok(p) => p,
        Err(e) => {
            return Err(Error::MaterializationFailed { path: rel, reason: e.reason() });
        },
    };
    match kind {
        TarEntryKind::Directory => Ok(ExtractStep::CreateDir { path: out }),
        TarEntryKind::Regular | TarEntryKind::HardLink => Ok(ExtractStep::WriteFile { path: out }),
        TarEntryKind::Other => Ok(ExtractStep::Skip),
        TarEntryKind::Symlink => match link {
            None => Err(Error::MaterializationFailed { path: out, reason: own("symlink missing target") }),
            Some(t) => match validate_symlink_target(t) {
                Ok(()) => Ok(ExtractStep::Symlink { path: out, target: own(t) }),
                Err(e) => Err(Error::MaterializationFailed { path: own(t), reason: e.reason() }),
            },
        },
    }
}

// ---------------------------------------------------------------------------
// Reading an archive
// ---------------------------------------------------------------------------

/// One entry of a tar archive: path, type byte, link target, data and the
/// Unix mode (when the header's mode field reads).
#[derive(Debug)]
pub struct TarItem {
    pub path: String,
    pub kind: u8,
    pub link: Option<String>,
    pub data: Vec<u8>,
    pub mode: Option<u32>,
}

/// An entry as plain values.
pub type ItemModel = (Seq<char>, u8, Option<Seq<char>>, Seq<u8>, Option<u32>);

/// Entries by their plain values.
pub open spec fn item_views(s: Seq<TarItem>) -> Seq<(Seq<char>, u8, Option<Seq<char>>, Seq<u8>, Option<u32>)> {
    s.map_values(|t: TarItem| (t.path@, t.kind, opt_view(t.link), t.data@, t.mode))
}

/// The entries of the gzip-compressed tar archive `bytes`, in order (each
/// path and link target read as text, replacing what is not UTF-8), or the
/// reason it cannot be read.
pub uninterp spec fn tar_read(bytes: Seq<u8>) -> Result<Seq<(Seq<char>, u8, Option<Seq<char>>, Seq<u8>, Option<u32>)>, Seq<char>>;

/// `tar::Archive::entries` over `flate2::read::GzDecoder`: every entry with
/// its path, type byte, link name, data (read to the end) and header mode.
#[verifier::external_body]
fn read_tarball(bytes: &[u8]) -> (r: Result<Vec<TarItem>, String>)
    ensures
        match tar_read(bytes@) {
            Ok(es) => r matches Ok(v) && item_views(v@) == es,
            Err(m) => r matches Err(e) && e@ == m,
        },
{
    let read = || -> std::io::Result<Vec<TarItem>> {
        let mut out = Vec::new();
        for entry in tar::Archive::new(flate2::read::GzDecoder::new(bytes)).entries()? {
            let mut e = entry?;
            let path = e.path()?.to_string_lossy().into_owned();
            let link = e.link_name()?.map(|p| p.to_string_lossy().into_owned());
            let mut data = Vec::new();
            e.read_to_end(&mut data)?;
            out.push(TarItem { path, kind: e.header().entry_type().as_byte(), link, data, mode: e.header().mode().ok() });
        }
        Ok(out)
    };
    read().map_err(|e| e.to_string())
}

/// The kind of an entry by its type byte (`0` file, `1` hard link, `2`
/// symlink, `5` directory).
pub open spec fn kind_of_byte(b: u8) -> TarEntryKind {
    if b == 48 {
        TarEntryKind::Regular
    } else if b == 49 {
        TarEntryKind::HardLink
    } else if b == 50 {
        TarEntryKind::Symlink
    } else if b == 53 {
        TarEntryKind::Directory
    } else {
        TarEntryKind::Other
    }
}

fn kind_of(b: u8) -> (k: TarEntryKind)
    ensures
        k == kind_of_byte(b),
{
    if b == 48 {
        TarEntryKind::Regular
    } else if b == 49 {
        TarEntryKind::HardLink
    } else if b == 50 {
        TarEntryKind::Symlink
    } else if b == 53 {
        TarEntryKind::Directory
    } else {
        TarEntryKind::Other
    }
}

/// The step for each entry, in order, or the first refusal.
pub open spec fn plan_of_items(dest: Seq<char>, items: Seq<(Seq<char>, u8, Option<Seq<char>>, Seq<u8>, Option<u32>)>) -> Result<Seq<StepModel>, (Seq<char>, Seq<char>)>
    decreases items.len(),
{
    if items.len() == 0 {
        Ok(Seq::empty())
    } else {
        match plan_of_items(dest, items.drop_last()) {
            Err(e) => Err(e),
            Ok(steps) => {
                let it = items.last();
                match extract_step_spec(dest, it.0, kind_of_byte(it.1), it.2) {
                    Ok(m) => Ok(steps.push(m)),
                    Err(e) => Err(e),
                }
            },
        }
    }
}

/// The step for each archive entry in order, with its data and mode, or
/// the first refusal.
pub fn plan_items(dest: &str, items: Vec<TarItem>) -> (r: Result<Vec<(ExtractStep, Vec<u8>, Option<u32>)>, Error>)
    ensures
        match plan_of_items(dest@, item_views(items@)) {
            Err((p, m)) => r matches Err(Error::MaterializationFailed { path, reason }) && path@ == p && reason@
                == m,
            Ok(steps) => r matches Ok(v) && v@.len() == items@.len() && forall|i: int|
                0 <= i < items@.len() ==> (#[trigger] v@[i]).0@ == steps[i] && v@[i].1@ == item_views(items@)[i].3
                    && v@[i].2 == item_views(items@)[i].4,
        },
{
    let ghost iv = item_views(items@);
    let mut src = items;
    let total = src.len();
    let mut out: Vec<(ExtractStep, Vec<u8>, Option<u32>)> = Vec::new();
    let mut k: usize = 0;
    assert(item_views(src@) =~= iv.skip(0));
    assert(iv.take(0) =~= Seq::<ItemModel>::empty());
    while src.len() > 0
        invariant
            k <= iv.len(),
            iv.len() == total,
            iv == item_views(items@),
            item_views(src@) == iv.skip(k as int),
            plan_of_items(dest@, iv.take(k as int)) matches Ok(steps) && steps.len() == k && out@.len() == k && forall|i: int|
                0 <= i < k ==> (#[trigger] out@[i]).0@ == steps[i] && out@[i].1@ == iv[i].3 && out@[i].2 == iv[i].4,
        decreases src@.len(),
    {
        let ghost sv = src@;
        assert(item_views(sv).len() == sv.len());
        let item = src.remove(0);
        proof {
            sv.remove_ensures(0);
            assert(item_views(sv)[0] == iv.skip(k as int)[0]);
            assert forall|q: int| 0 <= q < src@.len() implies #[trigger] item_views(src@)[q] == iv.skip(k + 1)[q] by {
                assert(src@[q] == sv[q + 1]);
                assert(item_views(sv)[q + 1] == iv.skip(k as int)[q + 1]);
            }
            assert(item_views(src@) =~= iv.skip(k + 1));
            assert(iv.take(k + 1).drop_last() =~= iv.take(k as int));
            assert(iv.take(k + 1).last() == iv[k as int]);
        }
        let TarItem { path, kind, link, data, mode } = item;
        let link_ref: Option<&str> = match &link {
            Some(l) => Some(l.as_str()),
            None => None,
        };
        let ghost steps = plan_of_items(dest@, iv.take(k as int))->Ok_0;
        match extract_step(dest, path.as_str(), kind_of(kind), link_ref) {
            Ok(step) => {
                let ghost sm = step@;
                let ghost before = out@;
                out.push((step, data, mode));
                proof {
                    assert(item_views(sv)[0] == (path@, kind, opt_view(link), data@, mode));
                    assert(plan_of_items(dest@, iv.take(k + 1)) == Ok::<Seq<StepModel>, (Seq<char>, Seq<char>)>(steps.push(sm)));
                    assert forall|i: int| 0 <= i < k + 1 implies (#[trigger] out@[i]).0@ == steps.push(sm)[i]
                        && out@[i].1@ == iv[i].3 && out@[i].2 == iv[i].4 by {
                        if i < k {
                            assert(out@[i] == before[i]);
                        }
                    }
                }
            },
            Err(e) => {
                proof {
                    assert(plan_of_items(dest@, iv.take(k + 1)) is Err);
                    lemma_plan_err_sticks(dest@, iv, k as int + 1);
                }
                return Err(e);
            },
        }
        k += 1;
    }
    assert(iv.take(k as int) =~= iv);
    Ok(out)
}

/// What extracting the npm tarball `bytes` into `dest` does: the step for
/// each entry in order, with its data and mode, or the error that stops it
/// before anything is written (an unreadable archive, or the first refused
/// entry).
pub fn extraction_plan(dest: &str, bytes: &[u8]) -> (r: Result<Vec<(ExtractStep, Vec<u8>, Option<u32>)>, Error>)
    ensures
        match tar_read(bytes@) {
            Err(m) => r matches Err(Error::MaterializationFailed { path, reason }) && path@ == dest@ && reason@
                == "invalid tar: "@ + m,
            Ok(items) => match plan_of_items(dest@, items) {
                Err((p, m)) => r matches Err(Error::MaterializationFailed { path, reason }) && path@ == p
                    && reason@ == m,
                Ok(steps) => r matches Ok(v) && v@.len() == items.len() && forall|i: int|
                    0 <= i < items.len() ==> (#[trigger] v@[i]).0@ == steps[i] && v@[i].1@ == items[i].3
                        && v@[i].2 == items[i].4,
            },
        },
{
    let items = match read_tarball(bytes) {
        Ok(v) => v,
        Err(m) => {
            return Err(Error::MaterializationFailed { path: own(dest), reason: crate::text::concat("invalid tar: ", m.as_str()) });
        },
    };
    plan_items(dest, items)
}

/// Once an entry is refused, every longer prefix is refused with the same error.
pub proof fn lemma_plan_err_sticks(dest: Seq<char>, items: Seq<(Seq<char>, u8, Option<Seq<char>>, Seq<u8>, Option<u32>)>, n: int)
    requires
        0 <= n <= items.len(),
        plan_of_items(dest, items.take(n)) is Err,
    ensures
        plan_of_items(dest, items) == plan_of_items(dest, items.take(n)),
    decreases items.len() - n,
{
    if n < items.len() {
        assert(items.take(n + 1).drop_last() =~= items.take(n));
        lemma_plan_err_sticks(dest, items, n + 1);
    } else {
        assert(items.take(n) =~= items);
    }
}

} // verus!
