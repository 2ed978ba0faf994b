//! The alternate backend's line grammar: pick the raw hex-byte field out of
//! each pre-disassembled text line.
//!
//! A line matches when it reads `<hex-address> <label> <hex bytes> <text>`:
//! a run of lowercase hex digits from the first byte, whitespace, a label
//! `<`...`>` (ending at the first `>` that whitespace follows), whitespace,
//! hex-byte pairs separated by single spaces (a pair continues the field
//! only when whitespace follows it), then at least one whitespace byte and
//! arbitrary trailing text. Lines that do not match are not instruction
//! records (section headers, blank lines) and are skipped silently.

use vstd::prelude::*;

verus! {

/// Whitespace inside a line: space or tab.
pub open spec fn is_ws(b: u8) -> bool {
    b == 32 || b == 9
}

/// A lowercase hexadecimal digit.
pub open spec fn is_hex(b: u8) -> bool {
    (48 <= b && b <= 57) || (97 <= b && b <= 102)
}

/// The cursor just past the run of hex digits starting at `i`.
pub open spec fn hex_end(s: Seq<u8>, i: int) -> int
    decreases s.len() - i,
{
    if 0 <= i < s.len() && is_hex(s[i]) {
        hex_end(s, i + 1)
    } else {
        i
    }
}

/// The cursor just past the run of whitespace starting at `i`.
pub open spec fn ws_end(s: Seq<u8>, i: int) -> int
    decreases s.len() - i,
{
    if 0 <= i < s.len() && is_ws(s[i]) {
        ws_end(s, i + 1)
    } else {
        i
    }
}

/// The cursor of the first `>` at or after `i` that whitespace follows, or
/// -1 when there is none.
pub open spec fn label_close(s: Seq<u8>, i: int) -> int
    decreases s.len() - i,
{
    if 0 <= i < s.len() {
        if s[i] == 62 && i + 1 < s.len() && is_ws(s[i + 1]) {
            i
        } else {
            label_close(s, i + 1)
        }
    } else {
        -1
    }
}

/// Extend a hex-byte field past its first pair: starting at `j`, a group of
/// one space and two hex digits joins the field only when whitespace follows
/// the group.
pub open spec fn pairs_end(s: Seq<u8>, j: int) -> int
    decreases s.len() - j,
{
    if 0 <= j && j + 3 < s.len() && s[j] == 32 && is_hex(s[j + 1]) && is_hex(s[j + 2]) && is_ws(
        s[j + 3],
    ) {
        pairs_end(s, j + 3)
    } else {
        j
    }
}

/// The hex-byte field of a line that matches the grammar, or `None`.
pub open spec fn spec_line_hex(s: Seq<u8>) -> Option<Seq<u8>> {
    let a = hex_end(s, 0);
    if a < 1 {
        None
    } else {
        let w = ws_end(s, a);
        if w == a || w >= s.len() || s[w] != 60 {
            None
        } else {
            let g = label_close(s, w + 1);
            if g < 0 {
                None
            } else {
                let h = ws_end(s, g + 1);
                if h == g + 1 || h + 1 >= s.len() || !is_hex(s[h]) || !is_hex(s[h + 1]) {
                    None
                } else {
                    let e = pairs_end(s, h + 2);
                    if e < s.len() && is_ws(s[e]) {
                        Some(s.subrange(h, e))
                    } else {
                        None
                    }
                }
            }
        }
    }
}

/// The hex-byte fields of every matching line, in line order.
pub open spec fn spec_plan(ls: Seq<Seq<u8>>) -> Seq<Seq<u8>>
    decreases ls.len(),
{
    if ls.len() == 0 {
        Seq::empty()
    } else {
        let rest = spec_plan(ls.drop_last());
        match spec_line_hex(ls.last()) {
            Some(f) => rest.push(f),
            None => rest,
        }
    }
}

/// Line-grammar robustness: inserting a line that does not match the
/// grammar anywhere in a corpus leaves the planned records unchanged, so
/// headers and blank lines contribute nothing and raise no error.
pub proof fn lemma_nonmatching_line_ignored(ls: Seq<Seq<u8>>, i: int, bad: Seq<u8>)
    requires
        0 <= i <= ls.len(),
        spec_line_hex(bad) is None,
    ensures
        spec_plan(ls.insert(i, bad)) == spec_plan(ls),
    decreases ls.len(),
{
    let ins = ls.insert(i, bad);
    if i == ls.len() {
        assert(ins.drop_last() =~= ls);
        assert(ins.last() == bad);
    } else {
        lemma_nonmatching_line_ignored(ls.drop_last(), i, bad);
        assert(ins.drop_last() =~= ls.drop_last().insert(i, bad));
        assert(ins.last() == ls.last());
    }
}

fn is_ws_b(b: u8) -> (r: bool)
    ensures
        r == is_ws(b),
{
    b == 32 || b == 9
}

fn is_hex_b(b: u8) -> (r: bool)
    ensures
        r == is_hex(b),
{
    (48 <= b && b <= 57) || (97 <= b && b <= 102)
}

fn scan_hex_end(s: &Vec<u8>, i: usize) -> (r: usize)
    requires
        i <= s@.len(),
    ensures
        r == hex_end(s@, i as int),
        i <= r <= s@.len(),
{
    let n = s.len();
    let mut j = i;
    while j < n && (48 <= s[j] && s[j] <= 57 || 97 <= s[j] && s[j] <= 102)
        invariant
            i <= j <= n,
            n == s@.len(),
            hex_end(s@, i as int) == hex_end(s@, j as int),
        decreases n - j,
    {
        j += 1;
    }
    j
}

pub(crate) fn scan_ws_end(s: &Vec<u8>, i: usize) -> (r: usize)
    requires
        i <= s@.len(),
    ensures
        r == ws_end(s@, i as int),
        i <= r <= s@.len(),
{
    let n = s.len();
    let mut j = i;
    while j < n && (s[j] == 32 || s[j] == 9)
        invariant
            i <= j <= n,
            n == s@.len(),
            ws_end(s@, i as int) == ws_end(s@, j as int),
        decreases n - j,
    {
        j += 1;
    }
    j
}

fn scan_label_close(s: &Vec<u8>, i: usize) -> (r: Option<usize>)
    requires
        i <= s@.len(),
    ensures
        (match r {
            Some(g) => g == label_close(s@, i as int) && i <= g && g + 1 < s@.len(),
            None => label_close(s@, i as int) == -1,
        }),
{
    let n = s.len();
    let mut j = i;
    while j < n
        invariant
            i <= j <= n,
            n == s@.len(),
            label_close(s@, i as int) == label_close(s@, j as int),
        decreases n - j,
    {
        if s[j] == 62 && n - j >= 2 && (s[j + 1] == 32 || s[j + 1] == 9) {
            return Some(j);
        }
        j += 1;
    }
    None
}

fn scan_pairs_end(s: &Vec<u8>, j: usize) -> (r: usize)
    requires
        j <= s@.len(),
    ensures
        r == pairs_end(s@, j as int),
        j <= r <= s@.len(),
{
    let n = s.len();
    let mut k = j;
    while n - k > 3 && s[k] == 32 && is_hex_b(s[k + 1]) && is_hex_b(s[k + 2]) && is_ws_b(s[k + 3])
        invariant
            j <= k <= n,
            n == s@.len(),
            pairs_end(s@, j as int) == pairs_end(s@, k as int),
        decreases n - k,
    {
        k += 3;
    }
    k
}

/// Copy the bytes of `[a, b)` out of a line.
pub(crate) fn copy_range(s: &Vec<u8>, a: usize, b: usize) -> (r: Vec<u8>)
    requires
        a <= b <= s@.len(),
    ensures
        r@ == s@.subrange(a as int, b as int),
{
    let mut v: Vec<u8> = Vec::new();
    let mut k = a;
    while k < b
        invariant
            a <= k <= b <= s@.len(),
            v@ == s@.subrange(a as int, k as int),
        decreases b - k,
    {
        v.push(s[k]);
        proof {
            assert(s@.subrange(a as int, k + 1 as int) =~= s@.subrange(a as int, k as int).push(
                s@[k as int],
            ));
        }
        k += 1;
    }
    v
}

/// The hex-byte field of one disassembly line, if the line matches the
/// grammar; a non-matching line is not an instruction record.
pub fn line_hex_field(line: &Vec<u8>) -> (r: Option<Vec<u8>>)
    ensures
        (match r {
            Some(v) => spec_line_hex(line@) == Some(v@),
            None => spec_line_hex(line@) is None,
        }),
{
    let n = line.len();
    let a = scan_hex_end(line, 0);
    if a < 1 {
        return None;
    }
    let w = scan_ws_end(line, a);
    if w == a || w >= n {
        return None;
    }
    if line[w] != 60 {
        return None;
    }
    match scan_label_close(line, w + 1) {
        None => None,
        Some(g) => {
            let h = scan_ws_end(line, g + 1);
            if h == g + 1 || n - h < 2 {
                return None;
            }
            if !is_hex_b(line[h]) || !is_hex_b(line[h + 1]) {
                return None;
            }
            let e = scan_pairs_end(line, h + 2);
            if e < n && is_ws_b(line[e]) {
                Some(copy_range(line, h, e))
            } else {
                None
            }
        },
    }
}

/// Plan the alternate backend's work: the hex-byte field of every line that
/// matches the grammar, in line order. Non-matching lines are skipped
/// silently and never raise an error.
pub fn plan_lines(lines: &Vec<Vec<u8>>) -> (r: Vec<Vec<u8>>)
    ensures
        r@.map_values(|v: Vec<u8>| v@) == spec_plan(lines@.map_values(|v: Vec<u8>| v@)),
{
    let ghost lv = lines@.map_values(|v: Vec<u8>| v@);
    let mut out: Vec<Vec<u8>> = Vec::new();
    let mut i: usize = 0;
    while i < lines.len()
        invariant
            0 <= i <= lines@.len(),
            lv == lines@.map_values(|v: Vec<u8>| v@),
            out@.map_values(|v: Vec<u8>| v@) == spec_plan(lv.subrange(0, i as int)),
        decreases lines@.len() - i,
    {
        let ghost pre = out@.map_values(|v: Vec<u8>| v@);
        match line_hex_field(&lines[i]) {
            Some(f) => {
                let ghost fv = f@;
                out.push(f);
                proof {
                    assert(out@.map_values(|v: Vec<u8>| v@) =~= pre.push(fv));
                }
            },
            None => {},
        }
        proof {
            let curls = lv.subrange(0, i + 1 as int);
            assert(curls.drop_last() =~= lv.subrange(0, i as int));
            assert(curls.last() == lv[i as int]);
            assert(lv[i as int] == lines@[i as int]@);
        }
        i += 1;
    }
    proof {
        assert(lv.subrange(0, lv.len() as int) =~= lv);
    }
    out
}

} // verus!
