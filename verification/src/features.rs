//! The fixed, finite vocabulary of CPU feature identifiers, their stable
//! numeric codes, their canonical names, and the boundary normalization that
//! keeps one feature from being represented two ways.

use vstd::prelude::*;

verus! {

/// One CPU instruction-set extension out of the engine's fixed vocabulary.
#[derive(Clone, Copy, PartialEq, Eq, Structural, Debug)]
pub enum FeatureId {
    Mmx,
    Sse,
    Sse2,
    Sse3,
    Sse42,
    Avx,
    Avx2,
    Bmi1,
    Bmi2,
    Movbe,
}

/// The stable numeric code of a feature; feature sets hold these codes.
pub open spec fn spec_code(f: FeatureId) -> u64 {
    match f {
        FeatureId::Mmx => 0,
        FeatureId::Sse => 1,
        FeatureId::Sse2 => 2,
        FeatureId::Sse3 => 3,
        FeatureId::Sse42 => 4,
        FeatureId::Avx => 5,
        FeatureId::Avx2 => 6,
        FeatureId::Bmi1 => 7,
        FeatureId::Bmi2 => 8,
        FeatureId::Movbe => 9,
    }
}

/// The feature a code stands for, if any.
pub open spec fn spec_from_code(c: u64) -> Option<FeatureId> {
    if c == 0 { Some(FeatureId::Mmx) }
    else if c == 1 { Some(FeatureId::Sse) }
    else if c == 2 { Some(FeatureId::Sse2) }
    else if c == 3 { Some(FeatureId::Sse3) }
    else if c == 4 { Some(FeatureId::Sse42) }
    else if c == 5 { Some(FeatureId::Avx) }
    else if c == 6 { Some(FeatureId::Avx2) }
    else if c == 7 { Some(FeatureId::Bmi1) }
    else if c == 8 { Some(FeatureId::Bmi2) }
    else if c == 9 { Some(FeatureId::Movbe) }
    else { None }
}

/// The canonical name of a feature, as bytes of ASCII text.
pub open spec fn spec_name(f: FeatureId) -> Seq<u8> {
    match f {
        FeatureId::Mmx => seq![77u8, 77u8, 88u8],
        FeatureId::Sse => seq![83u8, 83u8, 69u8],
        FeatureId::Sse2 => seq![83u8, 83u8, 69u8, 50u8],
        FeatureId::Sse3 => seq![83u8, 83u8, 69u8, 51u8],
        FeatureId::Sse42 => seq![83u8, 83u8, 69u8, 52u8, 50u8],
        FeatureId::Avx => seq![65u8, 86u8, 88u8],
        FeatureId::Avx2 => seq![65u8, 86u8, 88u8, 50u8],
        FeatureId::Bmi1 => seq![66u8, 77u8, 73u8, 49u8],
        FeatureId::Bmi2 => seq![66u8, 77u8, 73u8, 50u8],
        FeatureId::Movbe => seq![77u8, 79u8, 86u8, 66u8, 69u8],
    }
}

/// ASCII lower-case letters are folded to upper case; everything else is kept.
pub open spec fn spec_upper(b: u8) -> u8 {
    if 97 <= b && b <= 122 { (b - 32) as u8 } else { b }
}

/// Separator bytes (`.`, `_`, `-`) are dropped by normalization, so that
/// spellings such as `sse4.2` and `SSE4_2` both name the same feature.
pub open spec fn spec_kept(b: u8) -> bool {
    b != 46 && b != 95 && b != 45
}

/// Boundary normalization of a feature name: fold to upper case and drop
/// separator bytes.
pub open spec fn spec_normalize(s: Seq<u8>) -> Seq<u8>
    decreases s.len(),
{
    if s.len() == 0 {
        Seq::empty()
    } else {
        let rest = spec_normalize(s.drop_last());
        if spec_kept(s.last()) { rest.push(spec_upper(s.last())) } else { rest }
    }
}

/// Lookup of an already-normalized name in the vocabulary.
pub open spec fn spec_lookup(n: Seq<u8>) -> Option<FeatureId> {
    if n == spec_name(FeatureId::Mmx) { Some(FeatureId::Mmx) }
    else if n == spec_name(FeatureId::Sse) { Some(FeatureId::Sse) }
    else if n == spec_name(FeatureId::Sse2) { Some(FeatureId::Sse2) }
    else if n == spec_name(FeatureId::Sse3) { Some(FeatureId::Sse3) }
    else if n == spec_name(FeatureId::Sse42) { Some(FeatureId::Sse42) }
    else if n == spec_name(FeatureId::Avx) { Some(FeatureId::Avx) }
    else if n == spec_name(FeatureId::Avx2) { Some(FeatureId::Avx2) }
    else if n == spec_name(FeatureId::Bmi1) { Some(FeatureId::Bmi1) }
    else if n == spec_name(FeatureId::Bmi2) { Some(FeatureId::Bmi2) }
    else if n == spec_name(FeatureId::Movbe) { Some(FeatureId::Movbe) }
    else { None }
}

/// What `from_name` returns: lookup of the normalized spelling.
pub open spec fn spec_from_name(s: Seq<u8>) -> Option<FeatureId> {
    spec_lookup(spec_normalize(s))
}

impl FeatureId {
    /// The stable numeric code of this feature.
    pub fn code(self) -> (r: u64)
        ensures
            r == spec_code(self),
    {
        match self {
            FeatureId::Mmx => 0,
            FeatureId::Sse => 1,
            FeatureId::Sse2 => 2,
            FeatureId::Sse3 => 3,
            FeatureId::Sse42 => 4,
            FeatureId::Avx => 5,
            FeatureId::Avx2 => 6,
            FeatureId::Bmi1 => 7,
            FeatureId::Bmi2 => 8,
            FeatureId::Movbe => 9,
        }
    }

    /// The feature a code stands for, if any.
    pub fn from_code(c: u64) -> (r: Option<FeatureId>)
        ensures
            r == spec_from_code(c),
    {
        if c == 0 { Some(FeatureId::Mmx) }
        else if c == 1 { Some(FeatureId::Sse) }
        else if c == 2 { Some(FeatureId::Sse2) }
        else if c == 3 { Some(FeatureId::Sse3) }
        else if c == 4 { Some(FeatureId::Sse42) }
        else if c == 5 { Some(FeatureId::Avx) }
        else if c == 6 { Some(FeatureId::Avx2) }
        else if c == 7 { Some(FeatureId::Bmi1) }
        else if c == 8 { Some(FeatureId::Bmi2) }
        else if c == 9 { Some(FeatureId::Movbe) }
        else { None }
    }

    /// The canonical name of this feature, as ASCII bytes.
    pub fn name(self) -> (r: Vec<u8>)
        ensures
            r@ == spec_name(self),
    {
        let mut v: Vec<u8> = Vec::new();
        match self {
            FeatureId::Mmx => { v.push(77); v.push(77); v.push(88); }
            FeatureId::Sse => { v.push(83); v.push(83); v.push(69); }
            FeatureId::Sse2 => { v.push(83); v.push(83); v.push(69); v.push(50); }
            FeatureId::Sse3 => { v.push(83); v.push(83); v.push(69); v.push(51); }
            FeatureId::Sse42 => { v.push(83); v.push(83); v.push(69); v.push(52); v.push(50); }
            FeatureId::Avx => { v.push(65); v.push(86); v.push(88); }
            FeatureId::Avx2 => { v.push(65); v.push(86); v.push(88); v.push(50); }
            FeatureId::Bmi1 => { v.push(66); v.push(77); v.push(73); v.push(49); }
            FeatureId::Bmi2 => { v.push(66); v.push(77); v.push(73); v.push(50); }
            FeatureId::Movbe => { v.push(77); v.push(79); v.push(86); v.push(66); v.push(69); }
        }
        proof {
            assert(v@ =~= spec_name(self));
        }
        v
    }
}

/// Whether two byte strings are equal.
pub fn bytes_eq(a: &Vec<u8>, b: &Vec<u8>) -> (r: bool)
    ensures
        r == (a@ == b@),
{
    if a.len() != b.len() {
        proof {
            assert(a@ != b@);
        }
        return false;
    }
    let mut i: usize = 0;
    while i < a.len()
        invariant
            0 <= i <= a@.len(),
            a@.len() == b@.len(),
            forall|j: int| 0 <= j < i ==> a@[j] == b@[j],
        decreases a@.len() - i,
    {
        if a[i] != b[i] {
            proof {
                assert(a@ != b@);
            }
            return false;
        }
        i += 1;
    }
    proof {
        assert(a@ =~= b@);
    }
    true
}

/// Fold a feature-name spelling to its normalized form: upper case, with
/// separator bytes dropped.
pub fn normalize_name(s: &Vec<u8>) -> (r: Vec<u8>)
    ensures
        r@ == spec_normalize(s@),
{
    let mut out: Vec<u8> = Vec::new();
    let mut i: usize = 0;
    while i < s.len()
        invariant
            0 <= i <= s@.len(),
            out@ == spec_normalize(s@.subrange(0, i as int)),
        decreases s@.len() - i,
    {
        let b = s[i];
        if b != 46 && b != 95 && b != 45 {
            if 97 <= b && b <= 122 {
                out.push(b - 32);
            } else {
                out.push(b);
            }
        }
        proof {
            let pre = s@.subrange(0, i as int);
            let cur = s@.subrange(0, i + 1 as int);
            assert(cur.drop_last() =~= pre);
            assert(cur.last() == s@[i as int]);
        }
        i += 1;
    }
    proof {
        assert(s@.subrange(0, s@.len() as int) =~= s@);
    }
    out
}

/// Look a feature-name spelling up in the vocabulary, normalizing it first.
pub fn from_name(s: &Vec<u8>) -> (r: Option<FeatureId>)
    ensures
        r == spec_from_name(s@),
{
    let n = normalize_name(s);
    if bytes_eq(&n, &FeatureId::Mmx.name()) { Some(FeatureId::Mmx) }
    else if bytes_eq(&n, &FeatureId::Sse.name()) { Some(FeatureId::Sse) }
    else if bytes_eq(&n, &FeatureId::Sse2.name()) { Some(FeatureId::Sse2) }
    else if bytes_eq(&n, &FeatureId::Sse3.name()) { Some(FeatureId::Sse3) }
    else if bytes_eq(&n, &FeatureId::Sse42.name()) { Some(FeatureId::Sse42) }
    else if bytes_eq(&n, &FeatureId::Avx.name()) { Some(FeatureId::Avx) }
    else if bytes_eq(&n, &FeatureId::Avx2.name()) { Some(FeatureId::Avx2) }
    else if bytes_eq(&n, &FeatureId::Bmi1.name()) { Some(FeatureId::Bmi1) }
    else if bytes_eq(&n, &FeatureId::Bmi2.name()) { Some(FeatureId::Bmi2) }
    else if bytes_eq(&n, &FeatureId::Movbe.name()) { Some(FeatureId::Movbe) }
    else { None }
}

} // verus!
