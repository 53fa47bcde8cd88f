//! Text primitives over character sequences.
//!
//! Every string operation of the library is stated over `Seq<char>` and
//! carried out on `Vec<char>`; `chars_of` and `string_of` cross between the
//! two worlds.
use vstd::prelude::*;

verus! {

// ---------------------------------------------------------------------------
// Specifications
// ---------------------------------------------------------------------------

/// `p` occurs in `s` starting at index `i`.
pub open spec fn occurs_at(s: Seq<char>, p: Seq<char>, i: int) -> bool {
    0 <= i && i + p.len() <= s.len() && s.subrange(i, i + p.len()) == p
}

/// `p` occurs somewhere in `s`.
pub open spec fn has_sub(s: Seq<char>, p: Seq<char>) -> bool {
    exists|i: int| occurs_at(s, p, i)
}

/// `s` begins with `p`.
pub open spec fn starts_with(s: Seq<char>, p: Seq<char>) -> bool {
    occurs_at(s, p, 0)
}

/// `s` ends with `p`.
pub open spec fn ends_with(s: Seq<char>, p: Seq<char>) -> bool {
    p.len() <= s.len() && occurs_at(s, p, s.len() - p.len())
}

/// `c` occurs in `s`.
pub open spec fn has_char(s: Seq<char>, c: char) -> bool {
    s.contains(c)
}

/// Index of the first occurrence of `p` in `s` at or after `from`, or -1.
pub open spec fn find_from(s: Seq<char>, p: Seq<char>, from: int) -> int
    decreases s.len() + 1 - from,
{
    if from < 0 || from + p.len() > s.len() {
        -1
    } else if occurs_at(s, p, from) {
        from
    } else {
        find_from(s, p, from + 1)
    }
}

/// Index of the first occurrence of `p` in `s`, or -1.
pub open spec fn find(s: Seq<char>, p: Seq<char>) -> int {
    find_from(s, p, 0)
}

/// Index of the last occurrence of `p` in `s` starting at or before `upto`, or -1.
pub open spec fn rfind_upto(s: Seq<char>, p: Seq<char>, upto: int) -> int
    decreases upto + 1,
{
    if upto < 0 {
        -1
    } else if occurs_at(s, p, upto) {
        upto
    } else {
        rfind_upto(s, p, upto - 1)
    }
}

/// Index of the last occurrence of `p` in `s`, or -1.
pub open spec fn rfind(s: Seq<char>, p: Seq<char>) -> int {
    rfind_upto(s, p, s.len() - p.len())
}

/// Every occurrence of the non-empty `from` replaced by `to`, scanning left to right.
pub open spec fn replace_all(s: Seq<char>, from: Seq<char>, to: Seq<char>) -> Seq<char>
    decreases s.len(),
{
    if from.len() == 0 || s.len() == 0 {
        s
    } else if starts_with(s, from) {
        to + replace_all(s.skip(from.len() as int), from, to)
    } else {
        seq![s[0]] + replace_all(s.skip(1), from, to)
    }
}

/// ASCII lower-casing of one character.
pub open spec fn lower_char(c: char) -> char {
    if 'A' <= c && c <= 'Z' {
        ((c as u32) + 32) as char
    } else {
        c
    }
}

/// ASCII lower-casing of a sequence.
pub open spec fn lower(s: Seq<char>) -> Seq<char> {
    s.map_values(|c: char| lower_char(c))
}

/// Repeatedly strip the non-empty prefix `p`.
pub open spec fn trim_start_matches(s: Seq<char>, p: Seq<char>) -> Seq<char>
    decreases s.len(),
{
    if p.len() > 0 && starts_with(s, p) {
        trim_start_matches(s.skip(p.len() as int), p)
    } else {
        s
    }
}

/// Repeatedly strip the non-empty suffix `p`.
pub open spec fn trim_end_matches(s: Seq<char>, p: Seq<char>) -> Seq<char>
    decreases s.len(),
{
    if p.len() > 0 && ends_with(s, p) {
        trim_end_matches(s.take(s.len() - p.len()), p)
    } else {
        s
    }
}

/// Unicode `White_Space`, as `char::is_whitespace` documents it.
pub open spec fn is_space(c: char) -> bool {
    let u = c as u32;
    (0x09 <= u && u <= 0x0d) || u == 0x20 || u == 0x85 || u == 0xa0 || u == 0x1680 || (0x2000 <= u
        && u <= 0x200a) || u == 0x2028 || u == 0x2029 || u == 0x202f || u == 0x205f || u == 0x3000
}

/// Strip leading white space.
pub open spec fn trim_start(s: Seq<char>) -> Seq<char>
    decreases s.len(),
{
    if s.len() > 0 && is_space(s[0]) {
        trim_start(s.skip(1))
    } else {
        s
    }
}

/// Strip trailing white space.
pub open spec fn trim_end(s: Seq<char>) -> Seq<char>
    decreases s.len(),
{
    if s.len() > 0 && is_space(s.last()) {
        trim_end(s.drop_last())
    } else {
        s
    }
}

/// Strip white space at both ends.
pub open spec fn trim(s: Seq<char>) -> Seq<char> {
    trim_end(trim_start(s))
}

/// Number of occurrences of `c` in `s`.
pub open spec fn count_char(s: Seq<char>, c: char) -> nat
    decreases s.len(),
{
    if s.len() == 0 {
        0
    } else {
        (if s[0] == c { 1nat } else { 0nat }) + count_char(s.skip(1), c)
    }
}

// ---------------------------------------------------------------------------
// Lemmas
// ---------------------------------------------------------------------------

proof fn lemma_find_from_props(s: Seq<char>, p: Seq<char>, from: int)
    requires
        0 <= from,
    ensures
        find_from(s, p, from) == -1 || (from <= find_from(s, p, from) && occurs_at(
            s,
            p,
            find_from(s, p, from),
        )),
        find_from(s, p, from) == -1 ==> forall|j: int| from <= j ==> !occurs_at(s, p, j),
        find_from(s, p, from) != -1 ==> forall|j: int|
            from <= j < find_from(s, p, from) ==> !occurs_at(s, p, j),
    decreases (s.len() as int) + 1 - from,
{
    if from + p.len() > s.len() {
    } else if occurs_at(s, p, from) {
    } else {
        assert(from < s.len() + 1);
        lemma_find_from_props(s, p, from + 1);
    }
}

/// `find` is the least index where `p` occurs, and -1 exactly when `p` never occurs.
pub proof fn lemma_find(s: Seq<char>, p: Seq<char>)
    ensures
        find(s, p) == -1 <==> !has_sub(s, p),
        find(s, p) != -1 ==> occurs_at(s, p, find(s, p)) && forall|j: int|
            0 <= j < find(s, p) ==> !occurs_at(s, p, j),
{
    lemma_find_from_props(s, p, 0);
    if find(s, p) != -1 {
        assert(occurs_at(s, p, find(s, p)));
    }
}

proof fn lemma_rfind_upto_props(s: Seq<char>, p: Seq<char>, upto: int)
    ensures
        rfind_upto(s, p, upto) == -1 || (rfind_upto(s, p, upto) <= upto && occurs_at(
            s,
            p,
            rfind_upto(s, p, upto),
        )),
        rfind_upto(s, p, upto) == -1 ==> forall|j: int| j <= upto ==> !occurs_at(s, p, j),
        rfind_upto(s, p, upto) != -1 ==> forall|j: int|
            rfind_upto(s, p, upto) < j <= upto ==> !occurs_at(s, p, j),
    decreases upto + 1,
{
    if upto < 0 {
    } else if occurs_at(s, p, upto) {
    } else {
        lemma_rfind_upto_props(s, p, upto - 1);
    }
}

/// `rfind` is the greatest index where `p` occurs, and -1 exactly when `p` never occurs.
pub proof fn lemma_rfind(s: Seq<char>, p: Seq<char>)
    ensures
        rfind(s, p) == -1 <==> !has_sub(s, p),
        rfind(s, p) != -1 ==> occurs_at(s, p, rfind(s, p)) && forall|j: int|
            rfind(s, p) < j ==> !occurs_at(s, p, j),
{
    lemma_rfind_upto_props(s, p, s.len() - p.len());
    if rfind(s, p) != -1 {
        assert(occurs_at(s, p, rfind(s, p)));
    }
    assert forall|j: int| j > s.len() - p.len() implies !occurs_at(s, p, j) by {}
}

// ---------------------------------------------------------------------------
// Conversions
// ---------------------------------------------------------------------------

/// Append one character to a `String` (`String::push`).
#[verifier::external_body]
pub fn push_char(s: &mut String, c: char)
    ensures
        final(s)@ == old(s)@.push(c),
{
    s.push(c);
}

/// The characters of `s`.
pub fn chars_of(s: &str) -> (r: Vec<char>)
    ensures
        r@ == s@,
{
    let mut v: Vec<char> = Vec::new();
    for c in it: s.chars()
        invariant
            v@ == it.seq().take(it.index() as int),
    {
        v.push(c);
    }
    proof {
        broadcast use vstd::string::group_string_axioms;

    }
    assert(v@ =~= s@);
    v
}

/// A `String` holding exactly the characters of `v`.
pub fn string_of(v: &Vec<char>) -> (r: String)
    ensures
        r@ == v@,
{
    let mut s = String::new();
    let mut i: usize = 0;
    while i < v.len()
        invariant
            i <= v.len(),
            s@ == v@.take(i as int),
        decreases v.len() - i,
    {
        push_char(&mut s, v[i]);
        i += 1;
        assert(s@ =~= v@.take(i as int));
    }
    assert(v@.take(v.len() as int) =~= v@);
    s
}

/// A copy of `s` (as an owned `String`).
pub fn own(s: &str) -> (r: String)
    ensures
        r@ == s@,
{
    s.to_owned()
}

/// Append the characters of `t` to `v`.
pub fn extend_chars(v: &mut Vec<char>, t: &Vec<char>)
    ensures
        final(v)@ == old(v)@ + t@,
{
    let mut i: usize = 0;
    while i < t.len()
        invariant
            i <= t.len(),
            v@ == old(v)@ + t@.take(i as int),
        decreases t.len() - i,
    {
        v.push(t[i]);
        i += 1;
        assert(v@ =~= old(v)@ + t@.take(i as int));
    }
    assert(t@.take(t.len() as int) =~= t@);
}

/// Append the characters of `t` to `v`.
pub fn extend_str(v: &mut Vec<char>, t: &str)
    ensures
        final(v)@ == old(v)@ + t@,
{
    let tc = chars_of(t);
    extend_chars(v, &tc);
}

/// `a` followed by `b`.
pub fn concat(a: &str, b: &str) -> (r: String)
    ensures
        r@ == a@ + b@,
{
    let mut v = chars_of(a);
    extend_str(&mut v, b);
    string_of(&v)
}

/// A copy of `v[from..to]`.
pub fn slice(v: &Vec<char>, from: usize, to: usize) -> (r: Vec<char>)
    requires
        from <= to <= v.len(),
    ensures
        r@ == v@.subrange(from as int, to as int),
{
    let mut r: Vec<char> = Vec::new();
    let mut i = from;
    while i < to
        invariant
            from <= i <= to <= v.len(),
            r@ == v@.subrange(from as int, i as int),
        decreases to - i,
    {
        r.push(v[i]);
        i += 1;
        assert(r@ =~= v@.subrange(from as int, i as int));
    }
    r
}

/// Characters equal.
pub fn eq_chars(a: &Vec<char>, b: &Vec<char>) -> (r: bool)
    ensures
        r == (a@ == b@),
{
    if a.len() != b.len() {
        return false;
    }
    let mut i: usize = 0;
    while i < a.len()
        invariant
            a.len() == b.len(),
            i <= a.len(),
            forall|j: int| 0 <= j < i ==> a@[j] == b@[j],
        decreases a.len() - i,
    {
        if a[i] != b[i] {
            return false;
        }
        i += 1;
    }
    assert(a@ =~= b@);
    true
}

/// Two strings hold the same characters.
pub fn str_eq(a: &str, b: &str) -> (r: bool)
    ensures
        r == (a@ == b@),
{
    let ac = chars_of(a);
    let bc = chars_of(b);
    eq_chars(&ac, &bc)
}

// ---------------------------------------------------------------------------
// Searching
// ---------------------------------------------------------------------------

/// Whether `p` occurs in `s` at index `i`.
pub fn matches_at(s: &Vec<char>, p: &Vec<char>, i: usize) -> (r: bool)
    ensures
        r == occurs_at(s@, p@, i as int),
{
    if i > s.len() || p.len() > s.len() - i {
        return false;
    }
    let mut k: usize = 0;
    while k < p.len()
        invariant
            i + p.len() <= s.len(),
            k <= p.len(),
            forall|j: int| 0 <= j < k ==> s@[i + j] == p@[j],
        decreases p.len() - k,
    {
        if s[i + k] != p[k] {
            assert(s@.subrange(i as int, i + p.len())[k as int] != p@[k as int]);
            return false;
        }
        k += 1;
    }
    assert(s@.subrange(i as int, i + p.len()) =~= p@);
    true
}

/// First index of `p` in `s` at or after `from`.
pub fn find_chars_from(s: &Vec<char>, p: &Vec<char>, from: usize) -> (r: Option<usize>)
    ensures
        match r {
            Some(i) => i as int == find_from(s@, p@, from as int),
            None => find_from(s@, p@, from as int) == -1,
        },
{
    if from > s.len() || p.len() > s.len() - from {
        return None;
    }
    if p.len() == 0 {
        assert(s@.subrange(from as int, from as int) =~= p@);
        return Some(from);
    }
    let mut i = from;
    while i <= s.len() - p.len()
        invariant
            from <= i <= s.len() - p.len() + 1,
            0 < p.len() <= s.len(),
            find_from(s@, p@, from as int) == find_from(s@, p@, i as int),
        decreases s.len() + 1 - i,
    {
        if matches_at(s, p, i) {
            return Some(i);
        }
        i += 1;
    }
    None
}

/// First index of `p` in `s`.
pub fn find_chars(s: &Vec<char>, p: &Vec<char>) -> (r: Option<usize>)
    ensures
        match r {
            Some(i) => i as int == find(s@, p@),
            None => find(s@, p@) == -1,
        },
{
    find_chars_from(s, p, 0)
}

/// Last index of `p` in `s`.
pub fn rfind_chars(s: &Vec<char>, p: &Vec<char>) -> (r: Option<usize>)
    ensures
        match r {
            Some(i) => i as int == rfind(s@, p@),
            None => rfind(s@, p@) == -1,
        },
{
    if p.len() > s.len() {
        return None;
    }
    let mut i: usize = s.len() - p.len();
    loop
        invariant
            i + p.len() <= s.len(),
            rfind(s@, p@) == rfind_upto(s@, p@, i as int),
        decreases i,
    {
        if matches_at(s, p, i) {
            return Some(i);
        }
        if i == 0 {
            assert(rfind_upto(s@, p@, -1) == -1);
            return None;
        }
        i -= 1;
    }
}

/// Whether `p` occurs in `s`.
pub fn contains_chars(s: &Vec<char>, p: &Vec<char>) -> (r: bool)
    ensures
        r == has_sub(s@, p@),
{
    proof {
        lemma_find(s@, p@);
    }
    find_chars(s, p).is_some()
}

/// Whether `s` begins with `p`.
pub fn starts_with_chars(s: &Vec<char>, p: &Vec<char>) -> (r: bool)
    ensures
        r == starts_with(s@, p@),
{
    matches_at(s, p, 0)
}

/// Whether `s` ends with `p`.
pub fn ends_with_chars(s: &Vec<char>, p: &Vec<char>) -> (r: bool)
    ensures
        r == ends_with(s@, p@),
{
    if p.len() > s.len() {
        return false;
    }
    matches_at(s, p, s.len() - p.len())
}

/// Whether the character `c` occurs in `s`.
pub fn has_char_chars(s: &Vec<char>, c: char) -> (r: bool)
    ensures
        r == has_char(s@, c),
{
    let mut i: usize = 0;
    while i < s.len()
        invariant
            i <= s.len(),
            forall|j: int| 0 <= j < i ==> s@[j] != c,
        decreases s.len() - i,
    {
        if s[i] == c {
            assert(s@[i as int] == c);
            return true;
        }
        i += 1;
    }
    false
}

/// Whether `p` occurs in `s` (string arguments).
pub fn str_contains(s: &str, p: &str) -> (r: bool)
    ensures
        r == has_sub(s@, p@),
{
    let sc = chars_of(s);
    let pc = chars_of(p);
    contains_chars(&sc, &pc)
}

/// Whether `s` begins with `p` (string arguments).
pub fn str_starts_with(s: &str, p: &str) -> (r: bool)
    ensures
        r == starts_with(s@, p@),
{
    let sc = chars_of(s);
    let pc = chars_of(p);
    starts_with_chars(&sc, &pc)
}

/// Whether `s` ends with `p` (string arguments).
pub fn str_ends_with(s: &str, p: &str) -> (r: bool)
    ensures
        r == ends_with(s@, p@),
{
    let sc = chars_of(s);
    let pc = chars_of(p);
    ends_with_chars(&sc, &pc)
}

/// Number of occurrences of `c` in `s`.
pub fn count_char_chars(s: &Vec<char>, c: char) -> (r: usize)
    ensures
        r == count_char(s@, c),
{
    let mut n: usize = 0;
    let mut i: usize = s.len();
    while i > 0
        invariant
            i <= s.len(),
            n == count_char(s@.skip(i as int), c),
            n <= s.len() - i,
        decreases i,
    {
        i -= 1;
        assert(s@.skip(i as int).skip(1) =~= s@.skip(i + 1));
        if s[i] == c {
            n += 1;
        }
    }
    assert(s@.skip(0) =~= s@);
    n
}

// ---------------------------------------------------------------------------
// Transformations
// ---------------------------------------------------------------------------

/// ASCII lower-casing.
pub fn lower_chars(s: &Vec<char>) -> (r: Vec<char>)
    ensures
        r@ == lower(s@),
{
    let mut r: Vec<char> = Vec::new();
    let mut i: usize = 0;
    while i < s.len()
        invariant
            i <= s.len(),
            r@ == lower(s@.take(i as int)),
        decreases s.len() - i,
    {
        let c = s[i];
        let l = if 'A' <= c && c <= 'Z' {
            let b = (c as u8) + 32;
            b as char
        } else {
            c
        };
        r.push(l);
        i += 1;
        assert(r@ =~= lower(s@.take(i as int)));
    }
    assert(s@.take(s.len() as int) =~= s@);
    r
}

proof fn lemma_replace_all_skip(s: Seq<char>, from: Seq<char>, to: Seq<char>, i: int)
    requires
        0 <= i <= s.len(),
        from.len() > 0,
        i + from.len() <= s.len() ==> !occurs_at(s, from, i),
        i < s.len(),
    ensures
        replace_all(s.skip(i), from, to) == seq![s[i]] + replace_all(s.skip(i + 1), from, to),
{
    let t = s.skip(i);
    assert(t.skip(1) =~= s.skip(i + 1));
    if starts_with(t, from) {
        assert(t.subrange(0, from.len() as int) =~= s.subrange(i, i + from.len()));
    }
}

proof fn lemma_replace_all_match(s: Seq<char>, from: Seq<char>, to: Seq<char>, i: int)
    requires
        0 <= i <= s.len(),
        from.len() > 0,
        occurs_at(s, from, i),
    ensures
        replace_all(s.skip(i), from, to) == to + replace_all(
            s.skip(i + from.len()),
            from,
            to,
        ),
{
    let t = s.skip(i);
    assert(t.subrange(0, from.len() as int) =~= s.subrange(i, i + from.len()));
    assert(t.skip(from.len() as int) =~= s.skip(i + from.len()));
}

/// Every occurrence of `from` in `s` replaced by `to` (`str::replace`).
pub fn replace_chars(s: &Vec<char>, from: &Vec<char>, to: &Vec<char>) -> (r: Vec<char>)
    requires
        from.len() > 0,
    ensures
        r@ == replace_all(s@, from@, to@),
{
    let mut r: Vec<char> = Vec::new();
    let mut i: usize = 0;
    assert(s@.skip(0) =~= s@);
    while i < s.len()
        invariant
            i <= s.len(),
            from.len() > 0,
            r@ + replace_all(s@.skip(i as int), from@, to@) == replace_all(s@, from@, to@),
        decreases s.len() - i,
    {
        if matches_at(s, from, i) {
            proof {
                lemma_replace_all_match(s@, from@, to@, i as int);
            }
            extend_chars(&mut r, to);
            assert(r@ + replace_all(s@.skip(i + from.len()), from@, to@) =~= replace_all(
                s@,
                from@,
                to@,
            ));
            i += from.len();
        } else {
            proof {
                lemma_replace_all_skip(s@, from@, to@, i as int);
            }
            r.push(s[i]);
            assert(r@ + replace_all(s@.skip(i + 1), from@, to@) =~= replace_all(
                s@,
                from@,
                to@,
            ));
            i += 1;
        }
    }
    assert(s@.skip(s.len() as int) =~= Seq::<char>::empty());
    assert(r@ =~= replace_all(s@, from@, to@));
    r
}

/// Every occurrence of the character `from` replaced by `to`.
pub fn replace_char(s: &Vec<char>, from: char, to: char) -> (r: Vec<char>)
    ensures
        r@ == replace_all(s@, seq![from], seq![to]),
{
    let f = vec![from];
    let t = vec![to];
    assert(f@ =~= seq![from]);
    assert(t@ =~= seq![to]);
    replace_chars(s, &f, &t)
}

/// Strip every leading repetition of `p`.
pub fn trim_start_matches_chars(s: &Vec<char>, p: &Vec<char>) -> (r: Vec<char>)
    ensures
        r@ == trim_start_matches(s@, p@),
{
    if p.len() == 0 {
        return slice(s, 0, s.len());
    }
    let mut i: usize = 0;
    assert(s@.skip(0) =~= s@);
    while matches_at(s, p, i)
        invariant
            i <= s.len(),
            p.len() > 0,
            trim_start_matches(s@, p@) == trim_start_matches(s@.skip(i as int), p@),
        decreases s.len() - i,
    {
        assert(s@.skip(i as int).subrange(0, p.len() as int) =~= s@.subrange(
            i as int,
            i + p.len(),
        ));
        assert(s@.skip(i as int).skip(p.len() as int) =~= s@.skip(i + p.len()));
        i += p.len();
    }
    assert(s@.skip(i as int).subrange(0, p.len() as int) =~= s@.subrange(
        i as int,
        i + p.len(),
    ) || p.len() > s@.skip(i as int).len());
    let r = slice(s, i, s.len());
    assert(r@ =~= s@.skip(i as int));
    r
}

/// Strip every trailing repetition of `p`.
pub fn trim_end_matches_chars(s: &Vec<char>, p: &Vec<char>) -> (r: Vec<char>)
    ensures
        r@ == trim_end_matches(s@, p@),
{
    if p.len() == 0 {
        return slice(s, 0, s.len());
    }
    let mut e: usize = s.len();
    assert(s@.take(s.len() as int) =~= s@);
    while e >= p.len() && matches_at(s, p, e - p.len())
        invariant
            e <= s.len(),
            p.len() > 0,
            trim_end_matches(s@, p@) == trim_end_matches(s@.take(e as int), p@),
        decreases e,
    {
        assert(s@.take(e as int).subrange(e - p.len(), e as int) =~= s@.subrange(
            e - p.len(),
            e as int,
        ));
        assert(s@.take(e as int).take(e - p.len()) =~= s@.take(e - p.len()));
        e -= p.len();
    }
    if e >= p.len() {
        assert(s@.take(e as int).subrange(e - p.len(), e as int) =~= s@.subrange(
            e - p.len(),
            e as int,
        ));
    }
    let r = slice(s, 0, e);
    assert(r@ =~= s@.take(e as int));
    r
}

/// Whether a character is Unicode white space.
pub fn is_space_char(c: char) -> (r: bool)
    ensures
        r == is_space(c),
{
    let u = c as u32;
    (0x09 <= u && u <= 0x0d) || u == 0x20 || u == 0x85 || u == 0xa0 || u == 0x1680 || (0x2000 <= u
        && u <= 0x200a) || u == 0x2028 || u == 0x2029 || u == 0x202f || u == 0x205f || u == 0x3000
}

/// Strip white space at both ends (`str::trim`).
pub fn trim_chars(s: &Vec<char>) -> (r: Vec<char>)
    ensures
        r@ == trim(s@),
{
    let mut b: usize = 0;
    assert(s@.skip(0) =~= s@);
    while b < s.len() && is_space_char(s[b])
        invariant
            b <= s.len(),
            trim_start(s@) == trim_start(s@.skip(b as int)),
        decreases s.len() - b,
    {
        assert(s@.skip(b as int).skip(1) =~= s@.skip(b + 1));
        b += 1;
    }
    let mut e: usize = s.len();
    assert(s@.skip(b as int) =~= s@.subrange(b as int, e as int));
    while e > b && is_space_char(s[e - 1])
        invariant
            b <= e <= s.len(),
            trim(s@) == trim_end(s@.subrange(b as int, e as int)),
        decreases e,
    {
        assert(s@.subrange(b as int, e as int).drop_last() =~= s@.subrange(b as int, e - 1));
        e -= 1;
    }
    slice(s, b, e)
}

} // verus!

verus! {

/// `format!("{:?}", s)` of a string: the quoted, escaped form.
pub uninterp spec fn debug_quoted(s: Seq<char>) -> Seq<char>;

/// The `Debug` rendering of a string (`format!("{:?}", s)`).
#[verifier::external_body]
pub fn debug_str(s: &str) -> (r: String)
    ensures
        r@ == debug_quoted(s@),
{
    format!("{:?}", s)
}

/// Decimal digits of `n` (no sign, no leading zeros; `0` for zero).
pub open spec fn decimal(n: nat) -> Seq<char>
    decreases n,
{
    if n < 10 {
        seq![(48 + n) as char]
    } else {
        decimal(n / 10).push((48 + n % 10) as char)
    }
}

/// The decimal text of `n` (`n.to_string()`).
pub fn decimal_string(n: u64) -> (r: String)
    ensures
        r@ == decimal(n as nat),
{
    let mut digits: Vec<char> = Vec::new();
    let mut m: u64 = n;
    // digits holds the low-order digits in reverse
    let ghost mut pow: nat = 1;
    while m >= 10
        invariant
            decimal(n as nat) == decimal(m as nat) + digits@.reverse(),
        decreases m,
    {
        let d = (m % 10) as u8;
        digits.push((48u8 + d) as char);
        let ghost old_digits = digits@.drop_last();
        assert(decimal(m as nat) == decimal((m / 10) as nat).push((48 + m % 10) as char));
        assert(digits@.reverse() =~= seq![(48 + m % 10) as char] + old_digits.reverse());
        m = m / 10;
        assert(decimal(n as nat) =~= decimal(m as nat) + digits@.reverse());
    }
    let mut out: Vec<char> = Vec::new();
    out.push((48u8 + (m as u8)) as char);
    assert(out@ =~= decimal(m as nat));
    let mut k: usize = digits.len();
    while k > 0
        invariant
            k <= digits.len(),
            out@ == decimal(m as nat) + digits@.subrange(k as int, digits.len() as int).reverse(),
        decreases k,
    {
        k -= 1;
        out.push(digits[k]);
        assert(digits@.subrange(k as int, digits.len() as int).reverse() =~= digits@.subrange(
            k + 1,
            digits.len() as int,
        ).reverse().push(digits@[k as int]));
    }
    assert(digits@.subrange(0, digits.len() as int) =~= digits@);
    string_of(&out)
}

/// `s` up to (not including) the first `c`, or all of `s`.
pub open spec fn before_char(s: Seq<char>, c: char) -> Seq<char> {
    let j = find(s, seq![c]);
    if j < 0 {
        s
    } else {
        s.take(j)
    }
}

/// `s` after the last `c`, or all of `s`.
pub open spec fn after_last_char(s: Seq<char>, c: char) -> Seq<char> {
    let j = rfind(s, seq![c]);
    if j < 0 {
        s
    } else {
        s.skip(j + 1)
    }
}

/// `s` up to the first `c`.
pub fn before_char_chars(s: &Vec<char>, c: char) -> (r: Vec<char>)
    ensures
        r@ == before_char(s@, c),
{
    let p = vec![c];
    assert(p@ =~= seq![c]);
    proof {
        lemma_find(s@, p@);
    }
    match find_chars(s, &p) {
        None => slice(s, 0, s.len()),
        Some(j) => {
            assert(occurs_at(s@, p@, j as int));
            assert(j + 1 <= s.len());
            slice(s, 0, j)
        },
    }
}

/// `s` after the last `c`.
pub fn after_last_char_chars(s: &Vec<char>, c: char) -> (r: Vec<char>)
    ensures
        r@ == after_last_char(s@, c),
{
    let p = vec![c];
    assert(p@ =~= seq![c]);
    proof {
        lemma_rfind(s@, p@);
    }
    match rfind_chars(s, &p) {
        None => slice(s, 0, s.len()),
        Some(j) => {
            assert(occurs_at(s@, p@, j as int));
            assert(j + 1 <= s.len());
            let r = slice(s, j + 1, s.len());
            assert(r@ =~= s@.skip(j + 1));
            r
        },
    }
}

/// Whether a list of strings holds `x`.
pub open spec fn list_has(l: Seq<Seq<char>>, x: Seq<char>) -> bool {
    exists|i: int| 0 <= i < l.len() && l[i] == x
}

/// Whether `l` holds a string with the characters of `x`.
pub fn vec_has(l: &Vec<String>, x: &str) -> (r: bool)
    ensures
        r == list_has(l.deep_view(), x@),
{
    let mut i: usize = 0;
    while i < l.len()
        invariant
            i <= l.len(),
            forall|j: int| 0 <= j < i ==> l.deep_view()[j] != x@,
        decreases l.len() - i,
    {
        if str_eq(l[i].as_str(), x) {
            assert(l.deep_view()[i as int] == x@);
            return true;
        }
        i += 1;
    }
    false
}

/// A copy of a list of strings.
pub fn copy_strings(l: &Vec<String>) -> (r: Vec<String>)
    ensures
        r.deep_view() == l.deep_view(),
{
    let mut out: Vec<String> = Vec::new();
    let mut i: usize = 0;
    while i < l.len()
        invariant
            i <= l.len(),
            out@.len() == i,
            forall|j: int| 0 <= j < i ==> #[trigger] out@[j]@ == l@[j]@,
        decreases l.len() - i,
    {
        let c = l[i].clone();
        assert(c@ == l@[i as int]@);
        out.push(c);
        i += 1;
    }
    assert(out.deep_view() =~= l.deep_view());
    out
}

/// A copy of an optional string.
pub fn copy_opt(o: &Option<String>) -> (r: Option<String>)
    ensures
        opt_view(r) == opt_view(*o),
{
    match o {
        Some(s) => Some(s.clone()),
        None => None,
    }
}

/// View of an optional string.
pub open spec fn opt_view(o: Option<String>) -> Option<Seq<char>> {
    match o {
        Some(s) => Some(s@),
        None => None,
    }
}

} // verus!

verus! {

/// Strip leading white space.
pub fn trim_start_chars(s: &Vec<char>) -> (r: Vec<char>)
    ensures
        r@ == trim_start(s@),
{
    let mut b: usize = 0;
    assert(s@.skip(0) =~= s@);
    while b < s.len() && is_space_char(s[b])
        invariant
            b <= s.len(),
            trim_start(s@) == trim_start(s@.skip(b as int)),
        decreases s.len() - b,
    {
        assert(s@.skip(b as int).skip(1) =~= s@.skip(b + 1));
        b += 1;
    }
    let r = slice(s, b, s.len());
    assert(r@ =~= s@.skip(b as int));
    r
}

/// Copy of `s` without its first `n` characters.
pub fn skip_chars(s: &Vec<char>, n: usize) -> (r: Vec<char>)
    requires
        n <= s.len(),
    ensures
        r@ == s@.skip(n as int),
{
    let r = slice(s, n, s.len());
    assert(r@ =~= s@.skip(n as int));
    r
}

// ---------------------------------------------------------------------------
// Lemmas on ASCII lower-casing
// ---------------------------------------------------------------------------

/// A character that is no ASCII letter: lower-casing never produces it from
/// another character, and leaves it as it is.
pub open spec fn ascii_non_letter(c: char) -> bool {
    !('a' <= c && c <= 'z') && !('A' <= c && c <= 'Z')
}

/// Lower-casing a character: idempotent, keeps white space, and yields a
/// character that is not a lower-case letter only from itself.
pub proof fn lemma_lower_char(c: char)
    ensures
        lower_char(lower_char(c)) == lower_char(c),
        is_space(lower_char(c)) == is_space(c),
        forall|q: char| ascii_non_letter(q) ==> (lower_char(c) == q <==> c == q),
{
    if 'A' <= c && c <= 'Z' {
        let u = (c as u32) + 32;
        assert(97 <= u <= 122);
        assert(lower_char(c) == u as char);
        assert((u as char) as u32 == u);
    }
}

/// Lower-casing commutes with taking a part of a sequence.
pub proof fn lemma_lower_subrange(s: Seq<char>, i: int, j: int)
    requires
        0 <= i <= j <= s.len(),
    ensures
        lower(s).subrange(i, j) == lower(s.subrange(i, j)),
        lower(s).take(j) == lower(s.take(j)),
        lower(s).skip(i) == lower(s.skip(i)),
{
    assert(lower(s).subrange(i, j) =~= lower(s.subrange(i, j)));
    assert(lower(s).take(j) =~= lower(s.take(j)));
    assert(lower(s).skip(i) =~= lower(s.skip(i)));
}

/// Lower-casing is idempotent.
pub proof fn lemma_lower_idem(s: Seq<char>)
    ensures
        lower(lower(s)) == lower(s),
{
    assert forall|i: int| 0 <= i < s.len() implies #[trigger] lower(lower(s))[i] == lower(s)[i] by {
        lemma_lower_char(s[i]);
    }
    assert(lower(lower(s)) =~= lower(s));
}

/// Lower-casing commutes with trimming white space.
pub proof fn lemma_lower_trim(s: Seq<char>)
    ensures
        trim_start(lower(s)) == lower(trim_start(s)),
        trim_end(lower(s)) == lower(trim_end(s)),
        trim(lower(s)) == lower(trim(s)),
    decreases s.len(),
{
    if s.len() > 0 {
        lemma_lower_char(s[0]);
        lemma_lower_char(s.last());
        assert(lower(s).skip(1) =~= lower(s.skip(1)));
        assert(lower(s).drop_last() =~= lower(s.drop_last()));
        lemma_lower_trim(s.skip(1));
        lemma_lower_trim(s.drop_last());
    }
    lemma_lower_trim_end(trim_start(s));
}

proof fn lemma_lower_trim_end(s: Seq<char>)
    ensures
        trim_end(lower(s)) == lower(trim_end(s)),
    decreases s.len(),
{
    if s.len() > 0 {
        lemma_lower_char(s.last());
        assert(lower(s).drop_last() =~= lower(s.drop_last()));
        lemma_lower_trim_end(s.drop_last());
    }
}

/// A pattern of characters that lower-casing never produces from others
/// occurs in the lower-cased text exactly where it occurs in the text.
pub proof fn lemma_lower_occurs(s: Seq<char>, p: Seq<char>, i: int)
    requires
        forall|k: int| 0 <= k < p.len() ==> ascii_non_letter(#[trigger] p[k]),
    ensures
        occurs_at(lower(s), p, i) == occurs_at(s, p, i),
{
    if 0 <= i && i + p.len() <= s.len() {
        assert forall|k: int| 0 <= k < p.len() implies (#[trigger] lower(s)[i + k] == p[k]) == (s[i + k]
            == p[k]) by {
            lemma_lower_char(s[i + k]);
        }
        if occurs_at(s, p, i) {
            assert forall|k: int| 0 <= k < p.len() implies lower(s).subrange(i, i + p.len())[k] == p[k] by {
                assert(s.subrange(i, i + p.len())[k] == p[k]);
                assert(lower(s)[i + k] == p[k]);
            }
            assert(lower(s).subrange(i, i + p.len()) =~= p);
        }
        if occurs_at(lower(s), p, i) {
            assert forall|k: int| 0 <= k < p.len() implies s.subrange(i, i + p.len())[k] == p[k] by {
                assert(lower(s).subrange(i, i + p.len())[k] == p[k]);
            }
            assert(s.subrange(i, i + p.len()) =~= p);
        }
    }
}

proof fn lemma_lower_find_from(s: Seq<char>, p: Seq<char>, from: int)
    requires
        forall|k: int| 0 <= k < p.len() ==> ascii_non_letter(#[trigger] p[k]),
    ensures
        find_from(lower(s), p, from) == find_from(s, p, from),
    decreases s.len() + 1 - from,
{
    lemma_lower_occurs(s, p, from);
    if from < 0 || from + p.len() > s.len() {
    } else if occurs_at(s, p, from) {
    } else {
        lemma_lower_find_from(s, p, from + 1);
    }
}

proof fn lemma_lower_rfind_upto(s: Seq<char>, p: Seq<char>, upto: int)
    requires
        forall|k: int| 0 <= k < p.len() ==> ascii_non_letter(#[trigger] p[k]),
    ensures
        rfind_upto(lower(s), p, upto) == rfind_upto(s, p, upto),
    decreases upto + 1,
{
    lemma_lower_occurs(s, p, upto);
    if upto < 0 {
    } else if occurs_at(s, p, upto) {
    } else {
        lemma_lower_rfind_upto(s, p, upto - 1);
    }
}

/// Searching for such a pattern gives the same index in the lower-cased text.
pub proof fn lemma_lower_find(s: Seq<char>, p: Seq<char>)
    requires
        forall|k: int| 0 <= k < p.len() ==> ascii_non_letter(#[trigger] p[k]),
    ensures
        find(lower(s), p) == find(s, p),
        rfind(lower(s), p) == rfind(s, p),
{
    lemma_lower_find_from(s, p, 0);
    lemma_lower_rfind_upto(s, p, s.len() - p.len());
}

/// Cutting at such a character commutes with lower-casing.
pub proof fn lemma_lower_cut(s: Seq<char>, c: char)
    requires
        ascii_non_letter(c),
    ensures
        before_char(lower(s), c) == lower(before_char(s, c)),
        after_last_char(lower(s), c) == lower(after_last_char(s, c)),
{
    lemma_lower_find(s, seq![c]);
    lemma_find(s, seq![c]);
    lemma_rfind(s, seq![c]);
    let j = find(s, seq![c]);
    if j >= 0 {
        lemma_lower_subrange(s, 0, j);
    }
    let q = rfind(s, seq![c]);
    if q >= 0 {
        assert(q + 1 <= s.len());
        lemma_lower_subrange(s, q + 1, s.len() as int);
    }
}

/// Text cut before the first `c` holds no `c`; text after the last `c` holds none either.
pub proof fn lemma_cut_lacks(s: Seq<char>, c: char)
    ensures
        !before_char(s, c).contains(c),
        !after_last_char(s, c).contains(c),
{
    lemma_find(s, seq![c]);
    lemma_rfind(s, seq![c]);
    let b = before_char(s, c);
    if b.contains(c) {
        let k = choose|k: int| 0 <= k < b.len() && b[k] == c;
        assert(s.subrange(k, k + 1) =~= seq![c]);
        assert(occurs_at(s, seq![c], k));
    }
    let a = after_last_char(s, c);
    if a.contains(c) {
        let k = choose|k: int| 0 <= k < a.len() && a[k] == c;
        let q = rfind(s, seq![c]);
        let m = if q < 0 { k } else { q + 1 + k };
        assert(s[m] == c);
        assert(s.subrange(m, m + 1) =~= seq![c]);
        assert(occurs_at(s, seq![c], m));
    }
}

/// Cutting keeps a character out when the text lacks it.
pub proof fn lemma_cut_keeps_lack(s: Seq<char>, c: char, d: char)
    requires
        !s.contains(d),
    ensures
        !before_char(s, c).contains(d),
        !after_last_char(s, c).contains(d),
{
    lemma_find(s, seq![c]);
    lemma_rfind(s, seq![c]);
    let b = before_char(s, c);
    if b.contains(d) {
        let k = choose|k: int| 0 <= k < b.len() && b[k] == d;
        assert(s[k] == d);
    }
    let a = after_last_char(s, c);
    if a.contains(d) {
        let k = choose|k: int| 0 <= k < a.len() && a[k] == d;
        let q = rfind(s, seq![c]);
        let m = if q < 0 { k } else { q + 1 + k };
        assert(s[m] == d);
    }
}

/// Lower-casing keeps out a character that it never produces from others.
pub proof fn lemma_lower_keeps_lack(s: Seq<char>, d: char)
    requires
        !s.contains(d),
        ascii_non_letter(d),
    ensures
        !lower(s).contains(d),
{
    if lower(s).contains(d) {
        let k = choose|k: int| 0 <= k < lower(s).len() && lower(s)[k] == d;
        lemma_lower_char(s[k]);
        assert(s[k] == d);
    }
}

/// Text encoded in UTF-8 between the same bytes on both sides is the same
/// text: the encoding can be read back out of its frame.
pub proof fn lemma_utf8_framed(p: Seq<u8>, a: Seq<char>, b: Seq<char>, s: Seq<u8>)
    requires
        p + vstd::utf8::encode_utf8(a) + s == p + vstd::utf8::encode_utf8(b) + s,
    ensures
        a == b,
{
    let ea = vstd::utf8::encode_utf8(a);
    let eb = vstd::utf8::encode_utf8(b);
    let x = p + ea + s;
    assert(x.len() == p.len() + ea.len() + s.len());
    assert((p + eb + s).len() == p.len() + eb.len() + s.len());
    assert(ea.len() == eb.len());
    assert(x.subrange(p.len() as int, (p.len() + ea.len()) as int) =~= ea);
    assert((p + eb + s).subrange(p.len() as int, (p.len() + eb.len()) as int) =~= eb);
    vstd::utf8::encode_utf8_decode_utf8(a);
    vstd::utf8::encode_utf8_decode_utf8(b);
}

/// Replacing a pattern leaves alone a prefix that never holds the
/// pattern's first character.
pub proof fn lemma_replace_prefix_free(a: Seq<char>, x: Seq<char>, from: Seq<char>, to: Seq<char>)
    requires
        from.len() > 0,
        forall|i: int| 0 <= i < a.len() ==> a[i] != from[0],
    ensures
        replace_all(a + x, from, to) == a + replace_all(x, from, to),
    decreases a.len(),
{
    if a.len() == 0 {
        assert(a + x =~= x);
        assert(a + replace_all(x, from, to) =~= replace_all(x, from, to));
    } else {
        let s = a + x;
        assert(s[0] == a[0]);
        assert(!starts_with(s, from)) by {
            if starts_with(s, from) {
                assert(s.subrange(0, from.len() as int)[0] == from[0]);
            }
        }
        assert(s.skip(1) =~= a.skip(1) + x);
        lemma_replace_prefix_free(a.skip(1), x, from, to);
        assert(seq![a[0]] + (a.skip(1) + replace_all(x, from, to)) =~= a + replace_all(x, from, to));
    }
}

} // verus!
