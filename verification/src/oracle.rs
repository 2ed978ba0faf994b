//! The alternate backend's classification oracle interface: read the
//! `ISA-EXT:` records out of one oracle invocation's output lines, and merge
//! per-instruction outcomes into one feature set.
//!
//! Tokenization rule (multi-feature records): the value after `ISA-EXT:` is
//! split on whitespace and commas; every token must name a feature of the
//! vocabulary (after boundary normalization), else the whole output counts
//! as unparseable for that instruction. Oracle failures are non-fatal: the
//! instruction contributes no features and the run continues.

use vstd::prelude::*;
use crate::feature_set::{FeatureSet, fs_codes};
use crate::features::{spec_code, spec_from_name, from_name};
use crate::textline::{is_ws, ws_end, scan_ws_end, copy_range};

verus! {

/// Why one oracle interaction contributed nothing: the external call itself
/// failed, or its output could not be read (a record without a value after
/// the marker, or a token outside the vocabulary).
#[derive(Clone, Copy, PartialEq, Eq, Structural, Debug)]
pub enum OracleError {
    CallFailed,
    UnparseableOutput,
}

/// A delimiter between feature tokens: whitespace or a comma.
pub open spec fn is_delim(b: u8) -> bool {
    is_ws(b) || b == 44
}

/// The feature tokens of a value: maximal runs of non-delimiter bytes.
pub open spec fn spec_tokens(s: Seq<u8>, i: int) -> Seq<Seq<u8>>
    decreases s.len() - i,
{
    if i < 0 || i >= s.len() {
        Seq::empty()
    } else if is_delim(s[i]) {
        spec_tokens(s, i + 1)
    } else {
        let rest = spec_tokens(s, i + 1);
        if i + 1 < s.len() && !is_delim(s[i + 1]) {
            seq![seq![s[i]] + rest[0]] + rest.drop_first()
        } else {
            seq![seq![s[i]]] + rest
        }
    }
}

proof fn lemma_tokens_at_token(s: Seq<u8>, j: int, k: int)
    requires
        0 <= j < k <= s.len(),
        forall|x: int| j <= x < k ==> !is_delim(#[trigger] s[x]),
        k == s.len() || is_delim(s[k]),
    ensures
        spec_tokens(s, j) == seq![s.subrange(j, k)] + spec_tokens(s, k),
    decreases k - j,
{
    if j + 1 == k {
        assert(seq![s[j]] =~= s.subrange(j, k));
    } else {
        lemma_tokens_at_token(s, j + 1, k);
        let rest = spec_tokens(s, j + 1);
        assert(rest == seq![s.subrange(j + 1, k)] + spec_tokens(s, k));
        assert(rest[0] == s.subrange(j + 1, k));
        assert(rest.drop_first() =~= spec_tokens(s, k));
        assert(seq![s[j]] + s.subrange(j + 1, k) =~= s.subrange(j, k));
        assert(seq![seq![s[j]] + rest[0]] + rest.drop_first() =~= seq![s.subrange(j, k)]
            + spec_tokens(s, k));
    }
}

/// The codes the tokens name, or `None` when a token is outside the
/// vocabulary.
pub open spec fn spec_codes_of_tokens(ts: Seq<Seq<u8>>) -> Option<Set<u64>>
    decreases ts.len(),
{
    if ts.len() == 0 {
        Some(Set::empty())
    } else {
        match spec_codes_of_tokens(ts.drop_last()) {
            None => None,
            Some(rest) => match spec_from_name(ts.last()) {
                None => None,
                Some(f) => Some(rest.insert(spec_code(f))),
            },
        }
    }
}

proof fn lemma_codes_none_prefix(ts: Seq<Seq<u8>>, i: int)
    requires
        0 <= i <= ts.len(),
        spec_codes_of_tokens(ts.subrange(0, i)) is None,
    ensures
        spec_codes_of_tokens(ts) is None,
    decreases ts.len() - i,
{
    if i == ts.len() {
        assert(ts.subrange(0, i) =~= ts);
    } else {
        assert(ts.subrange(0, i + 1).drop_last() =~= ts.subrange(0, i));
        lemma_codes_none_prefix(ts, i + 1);
    }
}

/// The marker naming an extension record in oracle output: `ISA-EXT`.
pub open spec fn spec_marker() -> Seq<u8> {
    seq![73u8, 83u8, 65u8, 45u8, 69u8, 88u8, 84u8]
}

pub open spec fn marker_at(s: Seq<u8>, i: int) -> bool {
    0 <= i && i + 7 <= s.len() && s.subrange(i, i + 7) == spec_marker()
}

/// The first marker occurrence at or after `i`, or -1.
pub open spec fn find_marker(s: Seq<u8>, i: int) -> int
    decreases s.len() - i,
{
    if i + 7 > s.len() {
        -1
    } else if marker_at(s, i) {
        i
    } else {
        find_marker(s, i + 1)
    }
}

/// How one output line reads: not an extension record, a record whose value
/// follows the marker and a colon, or a record whose shape is broken.
pub enum ExtLine {
    NotRecord,
    Malformed,
    Value(Seq<u8>),
}

/// Read one output line: a line without the marker is no record; after the
/// first marker, optional whitespace and a colon must follow, and the value
/// is the rest of the line.
pub open spec fn spec_line_ext(s: Seq<u8>) -> ExtLine {
    let f = find_marker(s, 0);
    if f < 0 {
        ExtLine::NotRecord
    } else {
        let v = ws_end(s, f + 7);
        if v < s.len() && s[v] == 58 {
            ExtLine::Value(s.subrange(v + 1, s.len() as int))
        } else {
            ExtLine::Malformed
        }
    }
}

/// The feature codes one oracle output names across all its record lines,
/// or `None` when some record is malformed or names an unknown feature.
pub open spec fn spec_oracle_codes(lines: Seq<Seq<u8>>) -> Option<Set<u64>>
    decreases lines.len(),
{
    if lines.len() == 0 {
        Some(Set::empty())
    } else {
        match spec_oracle_codes(lines.drop_last()) {
            None => None,
            Some(acc) => match spec_line_ext(lines.last()) {
                ExtLine::NotRecord => Some(acc),
                ExtLine::Malformed => None,
                ExtLine::Value(v) => match spec_codes_of_tokens(spec_tokens(v, 0)) {
                    None => None,
                    Some(cs) => Some(acc.union(cs)),
                },
            },
        }
    }
}

proof fn lemma_oracle_none_prefix(ls: Seq<Seq<u8>>, i: int)
    requires
        0 <= i <= ls.len(),
        spec_oracle_codes(ls.subrange(0, i)) is None,
    ensures
        spec_oracle_codes(ls) is None,
    decreases ls.len() - i,
{
    if i == ls.len() {
        assert(ls.subrange(0, i) =~= ls);
    } else {
        assert(ls.subrange(0, i + 1).drop_last() =~= ls.subrange(0, i));
        lemma_oracle_none_prefix(ls, i + 1);
    }
}

/// The view of one per-instruction oracle interaction: the output lines the
/// call printed, or nothing when the call itself failed.
pub open spec fn view_outcome(o: Option<Vec<Vec<u8>>>) -> Option<Seq<Seq<u8>>> {
    match o {
        Some(ls) => Some(ls@.map_values(|l: Vec<u8>| l@)),
        None => None,
    }
}

/// Merge per-instruction oracle interactions into one set: an instruction
/// whose call failed or whose output is unparseable contributes nothing.
pub open spec fn spec_merge(outs: Seq<Option<Seq<Seq<u8>>>>) -> Set<u64>
    decreases outs.len(),
{
    if outs.len() == 0 {
        Set::empty()
    } else {
        let rest = spec_merge(outs.drop_last());
        match outs.last() {
            None => rest,
            Some(ls) => match spec_oracle_codes(ls) {
                None => rest,
                Some(cs) => rest.union(cs),
            },
        }
    }
}

fn is_delim_b(b: u8) -> (r: bool)
    ensures
        r == is_delim(b),
{
    b == 32 || b == 9 || b == 44
}

fn scan_token_end(s: &Vec<u8>, i: usize) -> (r: usize)
    requires
        i <= s@.len(),
    ensures
        i <= r <= s@.len(),
        forall|x: int| i <= x < r ==> !is_delim(#[trigger] s@[x]),
        r == s@.len() || is_delim(s@[r as int]),
{
    let n = s.len();
    let mut j = i;
    while j < n && !(s[j] == 32 || s[j] == 9 || s[j] == 44)
        invariant
            i <= j <= n,
            n == s@.len(),
            forall|x: int| i <= x < j ==> !is_delim(#[trigger] s@[x]),
        decreases n - j,
    {
        j += 1;
    }
    j
}

/// Split a record's value into its feature tokens.
fn split_tokens(v: &Vec<u8>) -> (r: Vec<Vec<u8>>)
    ensures
        r@.map_values(|t: Vec<u8>| t@) == spec_tokens(v@, 0),
{
    let n = v.len();
    let mut out: Vec<Vec<u8>> = Vec::new();
    let mut i: usize = 0;
    while i < n
        invariant
            0 <= i <= n,
            n == v@.len(),
            spec_tokens(v@, 0) == out@.map_values(|t: Vec<u8>| t@) + spec_tokens(v@, i as int),
        decreases n - i,
    {
        if is_delim_b(v[i]) {
            i += 1;
        } else {
            let k = scan_token_end(v, i);
            let ghost pre = out@.map_values(|t: Vec<u8>| t@);
            let tok = copy_range(v, i, k);
            let ghost tv = tok@;
            out.push(tok);
            proof {
                lemma_tokens_at_token(v@, i as int, k as int);
                assert(out@.map_values(|t: Vec<u8>| t@) =~= pre.push(tv));
                assert(pre + (seq![tv] + spec_tokens(v@, k as int)) =~= pre.push(tv) + spec_tokens(
                    v@,
                    k as int,
                ));
            }
            i = k;
        }
    }
    proof {
        assert(spec_tokens(v@, n as int) =~= Seq::<Seq<u8>>::empty());
        assert(out@.map_values(|t: Vec<u8>| t@) + spec_tokens(v@, n as int) =~= out@.map_values(
            |t: Vec<u8>| t@,
        ));
    }
    out
}

/// Look every token up and add its code to `acc`; false when some token is
/// outside the vocabulary.
fn add_token_codes(ts: &Vec<Vec<u8>>, acc: &mut FeatureSet) -> (r: bool)
    ensures
        (match spec_codes_of_tokens(ts@.map_values(|t: Vec<u8>| t@)) {
            Some(cs) => r && fs_codes(*final(acc)) =~= fs_codes(*old(acc)).union(cs),
            None => !r,
        }),
{
    let ghost tv = ts@.map_values(|t: Vec<u8>| t@);
    let mut i: usize = 0;
    while i < ts.len()
        invariant
            0 <= i <= ts@.len(),
            tv == ts@.map_values(|t: Vec<u8>| t@),
            (match spec_codes_of_tokens(tv.subrange(0, i as int)) {
                Some(cs) => fs_codes(*acc) =~= fs_codes(*old(acc)).union(cs),
                None => false,
            }),
        decreases ts@.len() - i,
    {
        proof {
            assert(tv.subrange(0, i + 1 as int).drop_last() =~= tv.subrange(0, i as int));
            assert(tv.subrange(0, i + 1 as int).last() == tv[i as int]);
            assert(tv[i as int] == ts@[i as int]@);
        }
        match from_name(&ts[i]) {
            Some(f) => {
                let c = f.code();
                acc.insert(c);
            },
            None => {
                proof {
                    lemma_codes_none_prefix(tv, i + 1);
                }
                return false;
            },
        }
        i += 1;
    }
    proof {
        assert(tv.subrange(0, tv.len() as int) =~= tv);
    }
    true
}

/// The marker bytes, `ISA-EXT`.
fn marker_bytes() -> (r: Vec<u8>)
    ensures
        r@ == spec_marker(),
{
    let mut v: Vec<u8> = Vec::new();
    v.push(73);
    v.push(83);
    v.push(65);
    v.push(45);
    v.push(69);
    v.push(88);
    v.push(84);
    proof {
        assert(v@ =~= spec_marker());
    }
    v
}

/// Whether `pat` occurs in `s` starting at `i`.
fn subseq_at(s: &Vec<u8>, i: usize, pat: &Vec<u8>) -> (r: bool)
    requires
        i <= s@.len(),
    ensures
        r == (i + pat@.len() <= s@.len() && s@.subrange(i as int, i + pat@.len()) == pat@),
{
    let n = s.len();
    let p = pat.len();
    if n - i < p {
        return false;
    }
    let mut x: usize = 0;
    while x < p
        invariant
            0 <= x <= p,
            p == pat@.len(),
            n == s@.len(),
            i + p <= n,
            forall|y: int| 0 <= y < x ==> s@[i + y] == pat@[y],
        decreases p - x,
    {
        if s[i + x] != pat[x] {
            proof {
                assert(s@.subrange(i as int, i + pat@.len())[x as int] == s@[i + x]);
            }
            return false;
        }
        x += 1;
    }
    proof {
        assert(s@.subrange(i as int, i + pat@.len()) =~= pat@);
    }
    true
}

/// The first marker occurrence in a line, if any.
fn find_marker_from(line: &Vec<u8>) -> (r: Option<usize>)
    ensures
        (match r {
            Some(f) => f == find_marker(line@, 0) && f + 7 <= line@.len(),
            None => find_marker(line@, 0) == -1,
        }),
{
    let n = line.len();
    let mk = marker_bytes();
    let mut i: usize = 0;
    while n - i >= 7
        invariant
            0 <= i <= n,
            n == line@.len(),
            mk@ == spec_marker(),
            find_marker(line@, 0) == find_marker(line@, i as int),
        decreases n - i,
    {
        if subseq_at(line, i, &mk) {
            proof {
                assert(marker_at(line@, i as int));
            }
            return Some(i);
        }
        proof {
            assert(!marker_at(line@, i as int));
        }
        i += 1;
    }
    None
}

enum ExtRead {
    NotRecord,
    Malformed,
    Value(Vec<u8>),
}

fn read_ext_line(line: &Vec<u8>) -> (r: ExtRead)
    ensures
        (match r {
            ExtRead::NotRecord => spec_line_ext(line@) == ExtLine::NotRecord,
            ExtRead::Malformed => spec_line_ext(line@) == ExtLine::Malformed,
            ExtRead::Value(v) => spec_line_ext(line@) == ExtLine::Value(v@),
        }),
{
    let n = line.len();
    match find_marker_from(line) {
        None => ExtRead::NotRecord,
        Some(f) => {
            let v = scan_ws_end(line, f + 7);
            if v < n && line[v] == 58 {
                ExtRead::Value(copy_range(line, v + 1, n))
            } else {
                ExtRead::Malformed
            }
        },
    }
}

/// Parse one oracle invocation's output, given as one element per line, into
/// the feature codes its records name. Fails exactly when some record line
/// is malformed or names a feature outside the vocabulary.
pub fn parse_oracle_output(lines: &Vec<Vec<u8>>) -> (r: Result<FeatureSet, OracleError>)
    ensures
        (match spec_oracle_codes(lines@.map_values(|l: Vec<u8>| l@)) {
            Some(cs) => r is Ok && fs_codes(r->Ok_0) =~= cs,
            None => r == Err::<FeatureSet, OracleError>(OracleError::UnparseableOutput),
        }),
{
    let ghost lv = lines@.map_values(|l: Vec<u8>| l@);
    let mut acc = FeatureSet::new();
    let mut i: usize = 0;
    while i < lines.len()
        invariant
            0 <= i <= lines@.len(),
            lv == lines@.map_values(|l: Vec<u8>| l@),
            (match spec_oracle_codes(lv.subrange(0, i as int)) {
                Some(cs) => fs_codes(acc) =~= cs,
                None => false,
            }),
        decreases lines@.len() - i,
    {
        proof {
            assert(lv.subrange(0, i + 1 as int).drop_last() =~= lv.subrange(0, i as int));
            assert(lv.subrange(0, i + 1 as int).last() == lv[i as int]);
            assert(lv[i as int] == lines@[i as int]@);
        }
        match read_ext_line(&lines[i]) {
            ExtRead::NotRecord => {},
            ExtRead::Malformed => {
                proof {
                    lemma_oracle_none_prefix(lv, i + 1);
                }
                return Err(OracleError::UnparseableOutput);
            },
            ExtRead::Value(v) => {
                let ts = split_tokens(&v);
                let ok = add_token_codes(&ts, &mut acc);
                if !ok {
                    proof {
                        lemma_oracle_none_prefix(lv, i + 1);
                    }
                    return Err(OracleError::UnparseableOutput);
                }
            },
        }
        i += 1;
    }
    proof {
        assert(lv.subrange(0, lv.len() as int) =~= lv);
    }
    Ok(acc)
}

/// Merge per-instruction oracle interactions into one deduplicated feature
/// set. An instruction whose call failed (`None`) or whose output is
/// unparseable contributes nothing; the run always completes.
pub fn merge_oracle_outputs(outs: &Vec<Option<Vec<Vec<u8>>>>) -> (r: FeatureSet)
    ensures
        fs_codes(r) =~= spec_merge(outs@.map_values(|o: Option<Vec<Vec<u8>>>| view_outcome(o))),
{
    let ghost ov = outs@.map_values(|o: Option<Vec<Vec<u8>>>| view_outcome(o));
    let mut acc = FeatureSet::new();
    let mut i: usize = 0;
    while i < outs.len()
        invariant
            0 <= i <= outs@.len(),
            ov == outs@.map_values(|o: Option<Vec<Vec<u8>>>| view_outcome(o)),
            fs_codes(acc) =~= spec_merge(ov.subrange(0, i as int)),
        decreases outs@.len() - i,
    {
        proof {
            assert(ov.subrange(0, i + 1 as int).drop_last() =~= ov.subrange(0, i as int));
            assert(ov.subrange(0, i + 1 as int).last() == ov[i as int]);
            assert(ov[i as int] == view_outcome(outs@[i as int]));
        }
        match &outs[i] {
            None => {},
            Some(ls) => {
                match parse_oracle_output(ls) {
                    Ok(fs) => {
                        acc.union_with(&fs);
                    },
                    Err(_) => {},
                }
            },
        }
        i += 1;
    }
    proof {
        assert(ov.subrange(0, ov.len() as int) =~= ov);
    }
    acc
}

} // verus!
