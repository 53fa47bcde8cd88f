//! Subresource-integrity strings (`<algorithm>-<base64 digest>`).
use vstd::prelude::*;
use crate::artifact::{sha256, sha256_digest};
use crate::error::Error;
use crate::text::{chars_of, find, find_chars, own, slice, string_of, extend_str, lemma_find, occurs_at};

verus! {

/// The base64 alphabet digit for `n < 64`.
pub open spec fn b64_digit(n: int) -> char {
    if n < 26 {
        (65 + n) as char
    } else if n < 52 {
        (71 + n) as char
    } else if n < 62 {
        (n - 4) as char
    } else if n == 62 {
        '+'
    } else {
        '/'
    }
}

/// Standard base64 with `=` padding.
pub open spec fn b64_encode(s: Seq<u8>) -> Seq<char>
    decreases s.len(),
{
    if s.len() == 0 {
        Seq::empty()
    } else if s.len() == 1 {
        seq![b64_digit(s[0] as int / 4), b64_digit((s[0] as int % 4) * 16), '=', '=']
    } else if s.len() == 2 {
        seq![
            b64_digit(s[0] as int / 4),
            b64_digit((s[0] as int % 4) * 16 + s[1] as int / 16),
            b64_digit((s[1] as int % 16) * 4),
            '=',
        ]
    } else {
        seq![
            b64_digit(s[0] as int / 4),
            b64_digit((s[0] as int % 4) * 16 + s[1] as int / 16),
            b64_digit((s[1] as int % 16) * 4 + s[2] as int / 64),
            b64_digit(s[2] as int % 64),
        ] + b64_encode(s.skip(3))
    }
}

fn b64_char(n: u8) -> (c: char)
    requires
        n < 64,
    ensures
        c == b64_digit(n as int),
{
    if n < 26 {
        (65u8 + n) as char
    } else if n < 52 {
        (71u8 + n) as char
    } else if n < 62 {
        (n - 4) as char
    } else if n == 62 {
        '+'
    } else {
        '/'
    }
}

/// Base64 encoding of `bytes`.
pub fn base64_encode(bytes: &[u8]) -> (r: String)
    ensures
        r@ == b64_encode(bytes@),
{
    let mut out: Vec<char> = Vec::new();
    let mut i: usize = 0;
    assert(bytes@.skip(0) =~= bytes@);
    while i < bytes.len()
        invariant
            i <= bytes@.len(),
            out@ + b64_encode(bytes@.skip(i as int)) == b64_encode(bytes@),
        decreases bytes@.len() - i,
    {
        let ghost rest = bytes@.skip(i as int);
        let b0 = bytes[i];
        if bytes.len() - i == 1 {
            out.push(b64_char(b0 / 4));
            out.push(b64_char((b0 % 4) * 16));
            out.push('=');
            out.push('=');
            assert(rest.len() == 1 && rest[0] == b0);
            assert(b64_encode(rest.skip(1)) =~= Seq::<char>::empty());
            i += 1;
            assert(bytes@.skip(i as int) =~= Seq::<u8>::empty());
        } else if bytes.len() - i == 2 {
            let b1 = bytes[i + 1];
            out.push(b64_char(b0 / 4));
            out.push(b64_char((b0 % 4) * 16 + b1 / 16));
            out.push(b64_char((b1 % 16) * 4));
            out.push('=');
            assert(rest.len() == 2 && rest[0] == b0 && rest[1] == b1);
            i += 2;
            assert(bytes@.skip(i as int) =~= Seq::<u8>::empty());
        } else {
            let b1 = bytes[i + 1];
            let b2 = bytes[i + 2];
            out.push(b64_char(b0 / 4));
            out.push(b64_char((b0 % 4) * 16 + b1 / 16));
            out.push(b64_char((b1 % 16) * 4 + b2 / 64));
            out.push(b64_char(b2 % 64));
            assert(rest[0] == b0 && rest[1] == b1 && rest[2] == b2);
            assert(rest.skip(3) =~= bytes@.skip(i + 3));
            i += 3;
        }
        assert(out@ + b64_encode(bytes@.skip(i as int)) =~= b64_encode(bytes@));
    }
    assert(b64_encode(bytes@.skip(i as int)) =~= Seq::<char>::empty());
    assert(out@ =~= b64_encode(bytes@));
    string_of(&out)
}

/// A base64 alphabet character.
pub open spec fn is_b64(c: char) -> bool {
    ('A' <= c && c <= 'Z') || ('a' <= c && c <= 'z') || ('0' <= c && c <= '9') || c == '+' || c
        == '/'
}

/// Index just past the run of base64 characters starting at `i`.
pub open spec fn b64_run(d: Seq<char>, i: int) -> int
    decreases d.len() - i,
{
    if 0 <= i < d.len() && is_b64(d[i]) {
        b64_run(d, i + 1)
    } else {
        i
    }
}

/// A digest text: at least one base64 character, then at most two `=`.
pub open spec fn digest_ok(d: Seq<char>) -> bool {
    let n = b64_run(d, 0);
    n >= 1 && d.len() - n <= 2 && forall|i: int| n <= i < d.len() ==> #[trigger] d[i] == '='
}

/// Supported digest algorithms.
pub open spec fn algorithm_ok(a: Seq<char>) -> bool {
    a == "sha1"@ || a == "sha256"@ || a == "sha384"@ || a == "sha512"@
}

/// `s` is `<algorithm>-<digest>` with a supported algorithm.
pub open spec fn valid_sri(s: Seq<char>) -> bool {
    let i = find(s, seq!['-']);
    i >= 0 && algorithm_ok(s.take(i)) && digest_ok(s.skip(i + 1))
}

/// Why `s` is not a valid integrity string.
pub open spec fn sri_error(s: Seq<char>) -> Seq<char> {
    if find(s, seq!['-']) < 0 {
        "integrity must be <algorithm>-<base64 digest>"@
    } else if !algorithm_ok(s.take(find(s, seq!['-']))) {
        "unsupported integrity algorithm"@
    } else {
        "integrity digest is not base64"@
    }
}

/// SHA-384 of `data` (as computed by the `sha2` crate).
pub uninterp spec fn sha384(data: Seq<u8>) -> Seq<u8>;

/// SHA-512 of `data` (as computed by the `sha2` crate).
pub uninterp spec fn sha512(data: Seq<u8>) -> Seq<u8>;

/// `sha2::Sha384::digest`: the 48-byte SHA-384 digest of `data`.
#[verifier::external_body]
fn sha384_digest(data: &[u8]) -> (r: Vec<u8>)
    ensures
        r@ == sha384(data@),
{
    <sha2::Sha384 as sha2::Digest>::digest(data).to_vec()
}

/// `sha2::Sha512::digest`: the 64-byte SHA-512 digest of `data`.
#[verifier::external_body]
fn sha512_digest(data: &[u8]) -> (r: Vec<u8>)
    ensures
        r@ == sha512(data@),
{
    <sha2::Sha512 as sha2::Digest>::digest(data).to_vec()
}

/// The digest of `data` under `algorithm`, for the algorithms that can be checked.
pub open spec fn digest_for(algorithm: Seq<char>, data: Seq<u8>) -> Option<Seq<u8>> {
    if algorithm == "sha256"@ {
        Some(sha256(data))
    } else if algorithm == "sha384"@ {
        Some(sha384(data))
    } else if algorithm == "sha512"@ {
        Some(sha512(data))
    } else {
        None
    }
}

/// A parsed integrity string.
#[derive(Debug, Clone, PartialEq, Eq)]
pub struct Integrity {
    /// Text as written.
    pub raw: String,
    /// Algorithm name (`sha256`, `sha512`, ...).
    pub algorithm: String,
    /// Base64 digest.
    pub digest: String,
}

fn digest_chars_ok(d: &Vec<char>) -> (r: bool)
    ensures
        r == digest_ok(d@),
{
    let mut n: usize = 0;
    while n < d.len() && (('A' <= d[n] && d[n] <= 'Z') || ('a' <= d[n] && d[n] <= 'z') || ('0'
        <= d[n] && d[n] <= '9') || d[n] == '+' || d[n] == '/')
        invariant
            n <= d.len(),
            b64_run(d@, 0) == b64_run(d@, n as int),
        decreases d.len() - n,
    {
        n += 1;
    }
    assert(b64_run(d@, n as int) == n);
    let mut k = n;
    while k < d.len() && d[k] == '='
        invariant
            n <= k <= d.len(),
            forall|i: int| n <= i < k ==> #[trigger] d@[i] == '=',
        decreases d.len() - k,
    {
        k += 1;
    }
    n >= 1 && k == d.len() && d.len() - n <= 2
}

impl Integrity {
    /// Parse `<algorithm>-<base64>`; the algorithm must be sha1, sha256, sha384
    /// or sha512 and the digest base64 with at most two `=` of padding.
    pub fn parse(s: &str) -> (r: Result<Integrity, String>)
        ensures
            match r {
                Ok(i) => valid_sri(s@) && i.raw@ == s@ && i.algorithm@ == s@.take(
                    find(s@, seq!['-']),
                ) && i.digest@ == s@.skip(find(s@, seq!['-']) + 1),
                Err(e) => !valid_sri(s@) && e@ == sri_error(s@),
            },
    {
        let v = chars_of(s);
        let dash = vec!['-'];
        assert(dash@ =~= seq!['-']);
        proof {
            lemma_find(v@, dash@);
        }
        let i = match find_chars(&v, &dash) {
            None => {
                return Err(own("integrity must be <algorithm>-<base64 digest>"));
            },
            Some(i) => i,
        };
        assert(occurs_at(v@, dash@, i as int));
        assert(i + 1 <= v.len());
        let alg = slice(&v, 0, i);
        let dig = slice(&v, i + 1, v.len());
        assert(dig@ =~= v@.skip(i + 1));
        let a = string_of(&alg);
        let ok_alg = crate::text::str_eq(a.as_str(), "sha1") || crate::text::str_eq(
            a.as_str(),
            "sha256",
        ) || crate::text::str_eq(a.as_str(), "sha384") || crate::text::str_eq(
            a.as_str(),
            "sha512",
        );
        if !ok_alg {
            return Err(own("unsupported integrity algorithm"));
        }
        if !digest_chars_ok(&dig) {
            return Err(own("integrity digest is not base64"));
        }
        Ok(Integrity { raw: own(s), algorithm: a, digest: string_of(&dig) })
    }

    /// Check `bytes` against this integrity: the base64 digest of `bytes` under
    /// the algorithm must equal the recorded digest. SHA-1 digests are not
    /// checked and fail closed.
    pub fn verify(&self, bytes: &[u8], package: &str) -> (r: Result<(), Error>)
        ensures
            match digest_for(self.algorithm@, bytes@) {
                Some(d) => if b64_encode(d) == self.digest@ {
                    r is Ok
                } else {
                    r matches Err(Error::IntegrityCheckFailed { package: p, reason }) && p@ == package@
                        && reason@ == "expected "@ + self.raw@ + ", got "@ + self.algorithm@ + "-"@
                        + b64_encode(d)
                },
                None => r matches Err(Error::IntegrityCheckFailed { package: p, reason }) && p@
                    == package@ && reason@ == "cannot verify "@ + self.algorithm@ + " integrity"@,
            },
    {
        let a = self.algorithm.as_str();
        let d = if crate::text::str_eq(a, "sha256") {
            sha256_digest(bytes)
        } else if crate::text::str_eq(a, "sha384") {
            sha384_digest(bytes)
        } else if crate::text::str_eq(a, "sha512") {
            sha512_digest(bytes)
        } else {
            let mut m = chars_of("cannot verify ");
            extend_str(&mut m, a);
            extend_str(&mut m, " integrity");
            return Err(Error::IntegrityCheckFailed { package: own(package), reason: string_of(&m) });
        };
        let got = base64_encode(d.as_slice());
        if crate::text::str_eq(got.as_str(), self.digest.as_str()) {
            Ok(())
        } else {
            let mut m = chars_of("expected ");
            extend_str(&mut m, self.raw.as_str());
            extend_str(&mut m, ", got ");
            extend_str(&mut m, a);
            extend_str(&mut m, "-");
            extend_str(&mut m, got.as_str());
            Err(Error::IntegrityCheckFailed { package: own(package), reason: string_of(&m) })
        }
    }

    /// The `sha256-<base64>` integrity of `bytes`.
    pub fn sha256_sri(bytes: &[u8]) -> (r: Integrity)
        ensures
            r.raw@ == "sha256-"@ + b64_encode(sha256(bytes@)),
            r.algorithm@ == "sha256"@,
            r.digest@ == b64_encode(sha256(bytes@)),
    {
        let d = sha256_digest(bytes);
        let b = base64_encode(d.as_slice());
        let mut raw = chars_of("sha256-");
        extend_str(&mut raw, b.as_str());
        Integrity { raw: string_of(&raw), algorithm: own("sha256"), digest: b }
    }
}

} // verus!
