//! Content-addressed artifact identity and store layout.
use vstd::prelude::*;
use crate::error::Error;
use crate::paths::{path_push, push_path};
use crate::text::{chars_of, extend_chars, extend_str, lower, lower_chars, own, slice, string_of};

verus! {

/// SHA-256 of `data` (as computed by the `sha2` crate).
pub uninterp spec fn sha256(data: Seq<u8>) -> Seq<u8>;

/// `sha2::Sha256::digest`: the 32-byte SHA-256 digest of `data`.
#[verifier::external_body]
pub fn sha256_digest(data: &[u8]) -> (r: Vec<u8>)
    ensures
        r@ == sha256(data@),
        r@.len() == 32,
{
    <sha2::Sha256 as sha2::Digest>::digest(data).to_vec()
}

/// Lower-case hexadecimal digit for `n < 16`.
pub open spec fn hex_char(n: int) -> char {
    if n < 10 {
        (48 + n) as char
    } else {
        (87 + n) as char
    }
}

/// Lower-case hexadecimal encoding, two digits per byte, high nibble first.
pub open spec fn hex_of(b: Seq<u8>) -> Seq<char> {
    Seq::new(
        2 * b.len(),
        |i: int|
            if i % 2 == 0 {
                hex_char(b[i / 2] as int / 16)
            } else {
                hex_char(b[i / 2] as int % 16)
            },
    )
}

/// A lower-case hexadecimal digit.
pub open spec fn is_lower_hex(c: char) -> bool {
    ('0' <= c && c <= '9') || ('a' <= c && c <= 'f')
}

/// Text `ArtifactId::parse` accepts: 64 hexadecimal digits of either case.
pub open spec fn valid_id_input(t: Seq<char>) -> bool {
    t.len() == 64 && forall|i: int| 0 <= i < t.len() ==> is_hex(#[trigger] t[i])
}

/// A hexadecimal digit of either case.
pub open spec fn is_hex(c: char) -> bool {
    ('0' <= c && c <= '9') || ('a' <= c && c <= 'f') || ('A' <= c && c <= 'F')
}

/// A well-formed artifact id text: 64 lower-case hexadecimal digits.
pub open spec fn valid_id_text(s: Seq<char>) -> bool {
    s.len() == 64 && forall|i: int| 0 <= i < s.len() ==> is_lower_hex(#[trigger] s[i])
}

fn hex_digit(n: u8) -> (c: char)
    requires
        n < 16,
    ensures
        c == hex_char(n as int),
        is_lower_hex(c),
{
    if n < 10 {
        (48u8 + n) as char
    } else {
        (87u8 + n) as char
    }
}

/// Lower-case hexadecimal encoding of `bytes`.
pub fn hex_encode(bytes: &[u8]) -> (r: String)
    requires
        2 * bytes@.len() <= usize::MAX,
    ensures
        r@ == hex_of(bytes@),
        forall|i: int| 0 <= i < r@.len() ==> is_lower_hex(#[trigger] r@[i]),
{
    let mut out: Vec<char> = Vec::new();
    let mut k: usize = 0;
    while k < bytes.len()
        invariant
            k <= bytes@.len(),
            out@.len() == 2 * k,
            forall|i: int| 0 <= i < 2 * k ==> out@[i] == hex_of(bytes@)[i],
            forall|i: int| 0 <= i < out@.len() ==> is_lower_hex(#[trigger] out@[i]),
        decreases bytes@.len() - k,
    {
        let b = bytes[k];
        out.push(hex_digit(b / 16));
        out.push(hex_digit(b % 16));
        proof {
            assert((2 * k as int) / 2 == k as int);
            assert((2 * k as int + 1) / 2 == k as int);
            assert((2 * k as int) % 2 == 0);
            assert((2 * k as int + 1) % 2 == 1);
        }
        k += 1;
    }
    assert(out@ =~= hex_of(bytes@));
    string_of(&out)
}

/// Content-addressed artifact identifier: the lower-case hex SHA-256 of the content.
#[derive(Debug, PartialEq, Eq, PartialOrd, Ord, Hash)]
pub struct ArtifactId {
    hex: String,
}

impl View for ArtifactId {
    type V = Seq<char>;

    closed spec fn view(&self) -> Seq<char> {
        self.hex@
    }
}

impl DeepView for ArtifactId {
    type V = Seq<char>;

    open spec fn deep_view(&self) -> Seq<char> {
        self@
    }
}

impl ArtifactId {
    #[verifier::type_invariant]
    spec fn inv(self) -> bool {
        valid_id_text(self.hex@)
    }

    /// Parse a hex SHA-256 digest of 64 digits of either case; the id is its
    /// lower-case form.
    pub fn parse(value: &str) -> (r: Result<ArtifactId, Error>)
        ensures
            match r {
                Ok(id) => value@.len() == 64 && (forall|i: int|
                    0 <= i < value@.len() ==> is_hex(#[trigger] value@[i])) && id@ == lower(
                    value@,
                ),
                Err(e) => !(value@.len() == 64 && (forall|i: int|
                    0 <= i < value@.len() ==> is_hex(#[trigger] value@[i]))) && e is InvalidState
                    && e.reason_of() == "artifact id must be 64 lowercase/uppercase hex characters"@,
            },
    {
        let v = chars_of(value);
        let mut ok = v.len() == 64;
        let mut i: usize = 0;
        while ok && i < v.len()
            invariant
                i <= v.len(),
                v@ == value@,
                ok ==> v.len() == 64,
                ok ==> forall|j: int| 0 <= j < i ==> is_hex(#[trigger] v@[j]),
                !ok ==> !(value@.len() == 64 && (forall|j: int|
                    0 <= j < value@.len() ==> is_hex(#[trigger] value@[j]))),
            decreases v.len() - i,
        {
            let c = v[i];
            if !(('0' <= c && c <= '9') || ('a' <= c && c <= 'f') || ('A' <= c && c <= 'F')) {
                assert(!is_hex(value@[i as int]));
                ok = false;
            }
            i += 1;
        }
        if !ok {
            return Err(
                Error::InvalidState {
                    path: own(value),
                    reason: own("artifact id must be 64 lowercase/uppercase hex characters"),
                },
            );
        }
        let l = lower_chars(&v);
        assert forall|j: int| 0 <= j < l@.len() implies is_lower_hex(#[trigger] l@[j]) by {
            assert(is_hex(v@[j]));
        }
        Ok(ArtifactId { hex: string_of(&l) })
    }

    /// Build from text already known to be a valid id.
    pub fn from_hex_unchecked(hex: String) -> (r: ArtifactId)
        requires
            valid_id_text(hex@),
        ensures
            r@ == hex@,
    {
        ArtifactId { hex }
    }

    /// The hex digest.
    pub fn as_str(&self) -> (r: &str)
        ensures
            r@ == self@,
            valid_id_text(r@),
    {
        proof {
            use_type_invariant(self);
        }
        self.hex.as_str()
    }

    /// First two hex digits (directory shard).
    pub fn shard(&self) -> (r: String)
        ensures
            r@ == self@.take(2),
    {
        proof {
            use_type_invariant(self);
        }
        let v = chars_of(self.hex.as_str());
        let s = slice(&v, 0, 2);
        string_of(&s)
    }

    /// Remaining hex digits (object file name).
    pub fn object_name(&self) -> (r: String)
        ensures
            r@ == self@.skip(2),
    {
        proof {
            use_type_invariant(self);
        }
        let v = chars_of(self.hex.as_str());
        let s = slice(&v, 2, v.len());
        assert(s@ =~= self@.skip(2));
        string_of(&s)
    }

    /// Whether two ids are the same.
    pub fn same(&self, other: &ArtifactId) -> (r: bool)
        ensures
            r == (self@ == other@),
    {
        crate::text::str_eq(self.hex.as_str(), other.hex.as_str())
    }

    /// A copy of this id.
    pub fn copy(&self) -> (r: ArtifactId)
        ensures
            r@ == self@,
    {
        proof {
            use_type_invariant(self);
        }
        ArtifactId { hex: self.hex.clone() }
    }
}

/// The artifact id of `bytes`: the hex SHA-256 digest.
pub fn hash_bytes(bytes: &[u8]) -> (r: ArtifactId)
    ensures
        r@ == hex_of(sha256(bytes@)),
{
    let d = sha256_digest(bytes);
    let h = hex_encode(d.as_slice());
    ArtifactId::from_hex_unchecked(h)
}

/// Filesystem-backed content-addressed store: objects live at
/// `<root>/sha256/<first two digits>/<remaining digits>`.
#[derive(Debug, Clone)]
pub struct ContentStore {
    root: String,
}

/// Where the object for an id with text `id` lives under `root`.
pub open spec fn object_path_spec(root: Seq<char>, id: Seq<char>) -> Seq<char> {
    path_push(path_push(path_push(root, "sha256"@), id.take(2)), id.skip(2))
}

/// Directory holding the objects whose ids share the first two digits of `id`.
pub open spec fn shard_dir_spec(root: Seq<char>, id: Seq<char>) -> Seq<char> {
    path_push(path_push(root, "sha256"@), id.take(2))
}

impl ContentStore {
    /// The store root as text.
    pub closed spec fn spec_root(&self) -> Seq<char> {
        self.root@
    }

    /// A store rooted at `root` (the directory layout is created by the caller).
    pub fn at_root(root: String) -> (r: ContentStore)
        ensures
            r.spec_root() == root@,
    {
        ContentStore { root }
    }

    /// Store root directory.
    pub fn root(&self) -> (r: &str)
        ensures
            r@ == self.spec_root(),
    {
        self.root.as_str()
    }

    /// Path where `id` would be stored.
    pub fn path_for(&self, id: &ArtifactId) -> (r: String)
        ensures
            r@ == object_path_spec(self.spec_root(), id@),
    {
        let mut p = chars_of(self.root.as_str());
        let s = chars_of("sha256");
        push_path(&mut p, &s);
        let sh = chars_of(id.shard().as_str());
        push_path(&mut p, &sh);
        let on = chars_of(id.object_name().as_str());
        push_path(&mut p, &on);
        string_of(&p)
    }

    /// Directory holding `id`'s shard.
    pub fn shard_dir(&self, id: &ArtifactId) -> (r: String)
        ensures
            r@ == shard_dir_spec(self.spec_root(), id@),
    {
        let mut p = chars_of(self.root.as_str());
        let s = chars_of("sha256");
        push_path(&mut p, &s);
        let sh = chars_of(id.shard().as_str());
        push_path(&mut p, &sh);
        string_of(&p)
    }

    /// The id under which `bytes` are stored. When `expected` is given the
    /// content hash must equal it, otherwise nothing may be written.
    pub fn put_id(bytes: &[u8], expected: Option<&ArtifactId>) -> (r: Result<ArtifactId, Error>)
        ensures
            match r {
                Ok(id) => id@ == hex_of(sha256(bytes@)) && match expected {
                    Some(e) => e@ == id@,
                    None => true,
                },
                Err(err) => match expected {
                    Some(e) => e@ != hex_of(sha256(bytes@)) && err is ArtifactHashMismatch
                        && err.reason_of() == "content hashes to "@ + hex_of(sha256(bytes@))
                        + ", not "@ + e@,
                    None => false,
                },
            },
    {
        let id = hash_bytes(bytes);
        match expected {
            Some(e) => {
                if !id.same(e) {
                    let mut reason = chars_of("content hashes to ");
                    extend_str(&mut reason, id.as_str());
                    extend_str(&mut reason, ", not ");
                    extend_str(&mut reason, e.as_str());
                    return Err(
                        Error::ArtifactHashMismatch {
                            id: own(e.as_str()),
                            reason: string_of(&reason),
                        },
                    );
                }
                Ok(id)
            },
            None => Ok(id),
        }
    }

    /// Check that bytes read back for `id` still hash to it.
    pub fn check_object(id: &ArtifactId, bytes: &[u8]) -> (r: Result<(), Error>)
        ensures
            match r {
                Ok(()) => id@ == hex_of(sha256(bytes@)),
                Err(err) => id@ != hex_of(sha256(bytes@)) && err is CorruptArtifact
                    && err.reason_of() == "on-disk content hashes to "@ + hex_of(sha256(bytes@)),
            },
    {
        let actual = hash_bytes(bytes);
        if !actual.same(id) {
            let mut reason = chars_of("on-disk content hashes to ");
            extend_str(&mut reason, actual.as_str());
            return Err(Error::CorruptArtifact { id: own(id.as_str()), reason: string_of(&reason) });
        }
        Ok(())
    }

    /// The object id named by a shard directory and a file inside it, when the
    /// directory is two hex digits and the file is not hidden (temporary
    /// writes start with `.`) and together they form a valid id.
    pub fn id_from_entry(shard_name: &str, file_name: &str) -> (r: Option<ArtifactId>)
        ensures
            match r {
                Some(id) => shard_name@.len() == 2 && (forall|i: int|
                    0 <= i < 2 ==> is_hex(#[trigger] shard_name@[i])) && !(file_name@.len() > 0
                    && file_name@[0] == '.') && (shard_name@ + file_name@).len() == 64 && (forall|
                    i: int,
                |
                    0 <= i < 64 ==> is_hex(#[trigger] (shard_name@ + file_name@)[i])) && id@ == lower(
                    shard_name@ + file_name@,
                ),
                None => !(shard_name@.len() == 2 && (forall|i: int|
                    0 <= i < 2 ==> is_hex(#[trigger] shard_name@[i])) && !(file_name@.len() > 0
                    && file_name@[0] == '.') && (shard_name@ + file_name@).len() == 64 && (forall|
                    i: int,
                |
                    0 <= i < 64 ==> is_hex(#[trigger] (shard_name@ + file_name@)[i]))),
            },
    {
        let s = chars_of(shard_name);
        let f = chars_of(file_name);
        if s.len() != 2 {
            return None;
        }
        let s0 = s[0];
        let s1 = s[1];
        let h0 = ('0' <= s0 && s0 <= '9') || ('a' <= s0 && s0 <= 'f') || ('A' <= s0 && s0 <= 'F');
        let h1 = ('0' <= s1 && s1 <= '9') || ('a' <= s1 && s1 <= 'f') || ('A' <= s1 && s1 <= 'F');
        if !h0 || !h1 {
            assert(!is_hex(shard_name@[0]) || !is_hex(shard_name@[1]));
            return None;
        }
        if f.len() > 0 && f[0] == '.' {
            return None;
        }
        let mut all = chars_of(shard_name);
        extend_chars(&mut all, &f);
        let text = string_of(&all);
        match ArtifactId::parse(text.as_str()) {
            Ok(id) => Some(id),
            Err(_) => None,
        }
    }
}

} // verus!
