//! npm-style package tarballs: every file under a top-level `package/`
//! directory, in a gzip-compressed tar archive. Also the rules for
//! snapshotting a local `file:` dependency directory into one.
use vstd::prelude::*;
use crate::error::Error;
use crate::paths::{escapes, is_absolute};
use crate::text::{chars_of, extend_str, own, replace_all, replace_char, string_of, str_eq};

verus! {

/// An archive being built: a `tar::Builder` writing into a byte buffer.
#[verifier::external_body]
pub struct TarArchive {
    builder: tar::Builder<Vec<u8>>,
}

/// The entries appended to an archive so far: path, data and Unix mode.
pub uninterp spec fn tar_entries(b: TarArchive) -> Seq<(Seq<char>, Seq<u8>, u32)>;

/// The bytes of the tar archive holding `entries` in order (GNU headers
/// with size and mode set; no timestamps or owners).
pub uninterp spec fn tar_bytes(entries: Seq<(Seq<char>, Seq<u8>, u32)>) -> Seq<u8>;

/// `data` gzip-compressed at the default level (empty header fields).
pub uninterp spec fn gzip_bytes(data: Seq<u8>) -> Seq<u8>;

/// Whether the tar crate accepts `path` as an entry's path (relative, no
/// `..` component, representable in a GNU header or its long-name extension).
pub uninterp spec fn tar_path_ok(path: Seq<char>) -> bool;

/// `tar::Builder::new` over an empty buffer: an archive with no entries yet.
#[verifier::external_body]
fn tar_builder() -> (r: TarArchive)
    ensures
        tar_entries(r) == Seq::<(Seq<char>, Seq<u8>, u32)>::empty(),
{
    TarArchive { builder: tar::Builder::new(Vec::new()) }
}

/// `tar::Builder::append_data` of a regular file `path` holding `data` with
/// Unix `mode` (a GNU header with size, mode and checksum set). It succeeds
/// exactly when the crate accepts the path (writing into a `Vec` never
/// fails), and the entry is then the archive's next one; a refused path is
/// refused before anything is written.
#[verifier::external_body]
fn tar_append(b: &mut TarArchive, path: &str, data: &[u8], mode: u32) -> (r: Result<(), String>)
    ensures
        r is Ok <==> tar_path_ok(path@),
        r is Ok ==> tar_entries(*final(b)) == tar_entries(*old(b)).push((path@, data@, mode)),
        r is Err ==> tar_entries(*final(b)) == tar_entries(*old(b)),
{
    let mut header = tar::Header::new_gnu();
    header.set_size(data.len() as u64);
    header.set_mode(mode);
    header.set_cksum();
    b.builder.append_data(&mut header, path, data).map_err(|e| e.to_string())
}

/// `tar::Builder::into_inner`: write the end-of-archive blocks and return
/// the archive's bytes (writing into a `Vec` never fails).
#[verifier::external_body]
fn tar_finish(b: TarArchive) -> (r: Result<Vec<u8>, String>)
    ensures
        r is Ok,
        r matches Ok(v) ==> v@ == tar_bytes(tar_entries(b)),
{
    b.builder.into_inner().map_err(|e| e.to_string())
}

/// `flate2::write::GzEncoder` at `Compression::default()` over a `Vec`:
/// the gzip stream of `data` (compressing into a `Vec` does not fail).
#[verifier::external_body]
fn gzip(data: &[u8]) -> (r: Result<Vec<u8>, String>)
    ensures
        r is Ok,
        r matches Ok(v) ==> v@ == gzip_bytes(data@),
{
    let mut enc = flate2::write::GzEncoder::new(Vec::new(), flate2::Compression::default());
    std::io::Write::write_all(&mut enc, data).map_err(|e| e.to_string())?;
    enc.finish().map_err(|e| e.to_string())
}

/// The archive entries of `files`: each path under `package/`.
pub open spec fn packed_entries(files: Seq<(String, Vec<u8>, u32)>) -> Seq<(Seq<char>, Seq<u8>, u32)> {
    files.map_values(|f: (String, Vec<u8>, u32)| ("package/"@ + f.0@, f.1@, f.2))
}

/// Build an npm-style `.tgz` of `files` (path, data, Unix mode), in the
/// order given. A path the archive format refuses fails the build.
pub fn pack_npm_tarball_with_modes(files: &Vec<(String, Vec<u8>, u32)>) -> (r: Result<Vec<u8>, Error>)
    ensures
        r is Ok <==> forall|k: int| 0 <= k < files@.len() ==> tar_path_ok(#[trigger] packed_entries(files@)[k].0),
        r matches Ok(v) ==> v@ == gzip_bytes(tar_bytes(packed_entries(files@))),
        r matches Err(e) ==> e matches Error::MaterializationFailed { path, .. } && exists|k: int|
            0 <= k < files@.len() && path@ == (#[trigger] packed_entries(files@)[k]).0 && !tar_path_ok(path@),
{
    let mut b = tar_builder();
    let mut i: usize = 0;
    assert(packed_entries(files@).take(0) =~= Seq::<(Seq<char>, Seq<u8>, u32)>::empty());
    while i < files.len()
        invariant
            i <= files@.len(),
            tar_entries(b) == packed_entries(files@).take(i as int),
            forall|k: int| 0 <= k < i ==> tar_path_ok(#[trigger] packed_entries(files@)[k].0),
        decreases files@.len() - i,
    {
        let mut name = chars_of("package/");
        extend_str(&mut name, files[i].0.as_str());
        let name = string_of(&name);
        match tar_append(&mut b, name.as_str(), files[i].1.as_slice(), files[i].2) {
            Ok(()) => {},
            Err(reason) => {
                assert(name@ == packed_entries(files@)[i as int].0);
                return Err(Error::MaterializationFailed { path: name, reason });
            },
        }
        assert(packed_entries(files@).take(i + 1) =~= packed_entries(files@).take(i as int).push(
            packed_entries(files@)[i as int],
        ));
        i += 1;
    }
    assert(packed_entries(files@).take(files@.len() as int) =~= packed_entries(files@));
    let tar = match tar_finish(b) {
        Ok(t) => t,
        Err(reason) => {
            return Err(Error::MaterializationFailed { path: own("package"), reason });
        },
    };
    match gzip(tar.as_slice()) {
        Ok(z) => Ok(z),
        Err(reason) => Err(Error::MaterializationFailed { path: own("package"), reason }),
    }
}

/// Mode of files packed without an explicit one (`0o644`).
pub const DEFAULT_FILE_MODE: u32 = 420;

/// The archive entries of `files` packed with the default mode.
pub open spec fn default_entries(files: Seq<(String, Vec<u8>)>) -> Seq<(Seq<char>, Seq<u8>, u32)> {
    files.map_values(|f: (String, Vec<u8>)| ("package/"@ + f.0@, f.1@, DEFAULT_FILE_MODE))
}

/// Build an npm-style `.tgz` of `files` (path, data), each with mode `0o644`.
pub fn pack_npm_tarball(files: &Vec<(String, Vec<u8>)>) -> (r: Result<Vec<u8>, Error>)
    ensures
        r is Ok <==> forall|k: int| 0 <= k < files@.len() ==> tar_path_ok(#[trigger] default_entries(files@)[k].0),
        r matches Ok(v) ==> v@ == gzip_bytes(tar_bytes(default_entries(files@))),
        r matches Err(e) ==> e matches Error::MaterializationFailed { path, .. } && exists|k: int|
            0 <= k < files@.len() && path@ == (#[trigger] default_entries(files@)[k]).0 && !tar_path_ok(path@),
{
    let mut with_modes: Vec<(String, Vec<u8>, u32)> = Vec::new();
    let mut i: usize = 0;
    while i < files.len()
        invariant
            i <= files@.len(),
            with_modes@.len() == i,
            forall|j: int|
                0 <= j < i ==> (#[trigger] with_modes@[j]).0@ == files@[j].0@ && with_modes@[j].1@
                    == files@[j].1@ && with_modes@[j].2 == DEFAULT_FILE_MODE,
        decreases files@.len() - i,
    {
        let data = copy_bytes(&files[i].1);
        with_modes.push((own(files[i].0.as_str()), data, DEFAULT_FILE_MODE));
        i += 1;
    }
    assert(packed_entries(with_modes@) =~= default_entries(files@));
    pack_npm_tarball_with_modes(&with_modes)
}

/// The tarball `pack_npm_tarball` builds, for tests that need an archive.
pub fn pack_npm_tarball_for_test(files: &Vec<(String, Vec<u8>)>) -> (r: Result<Vec<u8>, Error>)
    ensures
        r is Ok <==> forall|k: int| 0 <= k < files@.len() ==> tar_path_ok(#[trigger] default_entries(files@)[k].0),
        r matches Ok(v) ==> v@ == gzip_bytes(tar_bytes(default_entries(files@))),
        r matches Err(e) ==> e matches Error::MaterializationFailed { path, .. } && exists|k: int|
            0 <= k < files@.len() && path@ == (#[trigger] default_entries(files@)[k]).0 && !tar_path_ok(path@),
{
    pack_npm_tarball(files)
}

/// A copy of `v`.
fn copy_bytes(v: &Vec<u8>) -> (r: Vec<u8>)
    ensures
        r@ == v@,
{
    let mut out: Vec<u8> = Vec::new();
    let mut i: usize = 0;
    while i < v.len()
        invariant
            i <= v@.len(),
            out@ == v@.take(i as int),
        decreases v@.len() - i,
    {
        out.push(v[i]);
        i += 1;
        assert(out@ =~= v@.take(i as int));
    }
    assert(v@.take(v@.len() as int) =~= v@);
    out
}

/// Directory entries a snapshot of a local package leaves out.
pub open spec fn snapshot_skips_spec(name: Seq<char>) -> bool {
    name == "node_modules"@ || name == ".git"@ || name == ".weave"@
}

/// Whether a snapshot of a local package leaves out the entry `name`.
pub fn snapshot_skips(name: &str) -> (r: bool)
    ensures
        r == snapshot_skips_spec(name@),
{
    str_eq(name, "node_modules") || str_eq(name, ".git") || str_eq(name, ".weave")
}

/// The archive path of a file found at `rel` (relative to the package
/// directory) while snapshotting: `\` becomes `/`; a path leaving the
/// directory is refused.
pub fn snapshot_rel_path(rel: &str, file: &str) -> (r: Result<String, Error>)
    ensures
        escapes(rel@) ==> (r matches Err(Error::MaterializationFailed { path, reason }) && path@ == file@
            && reason@ == "path traversal rejected while snapshotting file dependency"@),
        !escapes(rel@) ==> (r matches Ok(p) && p@ == replace_all(rel@, seq!['\\'], seq!['/'])),
{
    let rc = chars_of(rel);
    if crate::paths::escapes_chars(&rc) {
        return Err(
            Error::MaterializationFailed {
                path: own(file),
                reason: own("path traversal rejected while snapshotting file dependency"),
            },
        );
    }
    Ok(string_of(&replace_char(&rc, '\\', '/')))
}

} // verus!
