//! The instruction decoder: turns a code blob into a gapless sequence of
//! instruction descriptors, honoring variable instruction length and the
//! mode-dependent meaning of opcode bytes.
//!
//! The grammar is stated once, as spec functions over the byte sequence with
//! an integer cursor (`spec_step` decodes one instruction, `spec_decode` a
//! whole blob); the executable decoder is proved to follow it exactly. The
//! grammar covers a fixed instruction table: legacy one-byte opcodes, the
//! `0F` and `0F 38` escape maps, the `66`/`F2`/`F3` legacy prefixes, `REX`
//! prefixes (64-bit mode only; elsewhere those bytes are `INC`/`DEC`
//! opcodes), two- and three-byte `VEX` encodings (64-bit mode only), and
//! full ModRM/SIB/displacement addressing forms in both 16-bit and 32/64-bit
//! addressing. A byte sequence outside the table is rejected as an invalid
//! encoding at its offset; a blob that ends mid-instruction is rejected as
//! truncated at the offset where that instruction started.

use vstd::prelude::*;
use crate::ExecutionMode;

verus! {

/// The opcode class of a decoded instruction.
#[derive(Clone, Copy, PartialEq, Eq, Structural, Debug)]
pub enum Op {
    Nop,
    Pause,
    Ret,
    PushReg,
    XorRmR,
    MovImm,
    IncReg,
    DecReg,
    Bsf,
    Tzcnt,
    Movbe,
    Crc32,
    Addps,
    Addpd,
    Addss,
    Addsd,
    PxorMmx,
    Pxor,
    PandnPacked,
    Vaddps,
    Vaddpd,
    Vaddss,
    Vaddsd,
    Vpxor,
    Andn,
    Bextr,
    Shlx,
    Sarx,
    Shrx,
}

/// The encoding identity of one decoded instruction: its opcode class plus
/// the operand-width fact classification needs (for `VEX` encodings, whether
/// the 256-bit vector length was selected).
#[derive(Clone, Copy, PartialEq, Eq, Structural, Debug)]
pub struct Identity {
    pub op: Op,
    pub wide_vector: bool,
}

/// The result of decoding one instruction: its byte span within the blob and
/// its encoding identity.
#[derive(Clone, Copy, PartialEq, Eq, Structural, Debug)]
pub struct InstructionDescriptor {
    pub offset: usize,
    pub length: usize,
    pub identity: Identity,
}

/// Why a decode run failed, with the offset of the offending instruction.
#[derive(Clone, Copy, PartialEq, Eq, Structural, Debug)]
pub enum DecodeError {
    InvalidEncoding { offset: usize },
    TruncatedInstruction { offset: usize },
}

/// Why a single instruction failed to decode.
#[derive(Clone, Copy, PartialEq, Eq, Structural, Debug)]
pub enum StepError {
    Invalid,
    Truncated,
}

/// The repeat-prefix state while scanning legacy prefixes: none seen, or the
/// last of `F2`/`F3`.
#[derive(Clone, Copy, PartialEq, Eq, Structural, Debug)]
pub enum RepPrefix {
    NoRep,
    RepF2,
    RepF3,
}

pub open spec fn spec_idn(op: Op) -> Identity {
    Identity { op: op, wide_vector: false }
}

pub open spec fn spec_vid(op: Op, l: bool) -> Identity {
    Identity { op: op, wide_vector: l }
}

/// How many immediate bytes a `MovImm` opcode carries: the mode's default
/// operand size, toggled by the `66` prefix, overridden by `REX.W`.
pub open spec fn spec_imm_size(m: ExecutionMode, osz: bool, rexw: bool) -> int {
    if m == ExecutionMode::Bits64 && rexw {
        8
    } else if m == ExecutionMode::Bits16 {
        if osz { 4 } else { 2 }
    } else {
        if osz { 2 } else { 4 }
    }
}

/// The cursor just past a ModRM byte and its SIB/displacement bytes, reading
/// at cursor `k`; 16-bit mode uses 16-bit addressing forms, the other modes
/// the 32-bit forms (with SIB).
pub open spec fn spec_modrm(s: Seq<u8>, m: ExecutionMode, k: int) -> Result<int, StepError> {
    if k >= s.len() {
        Err(StepError::Truncated)
    } else {
        let md = s[k] >> 6u8;
        let rm = s[k] & 7u8;
        if md == 3 {
            Ok(k + 1)
        } else if m == ExecutionMode::Bits16 {
            let disp: int = if md == 1 { 1 } else if md == 2 || rm == 6 { 2 } else { 0 };
            if k + 1 + disp <= s.len() { Ok(k + 1 + disp) } else { Err(StepError::Truncated) }
        } else if rm == 4 {
            if k + 2 > s.len() {
                Err(StepError::Truncated)
            } else {
                let base = s[k + 1] & 7u8;
                let disp: int = if md == 1 { 1 } else if md == 2 { 4 } else if base == 5 { 4 } else { 0 };
                if k + 2 + disp <= s.len() { Ok(k + 2 + disp) } else { Err(StepError::Truncated) }
            }
        } else {
            let disp: int = if md == 1 { 1 } else if md == 2 { 4 } else if rm == 5 { 4 } else { 0 };
            if k + 1 + disp <= s.len() { Ok(k + 1 + disp) } else { Err(StepError::Truncated) }
        }
    }
}

pub open spec fn spec_after_modrm(s: Seq<u8>, m: ExecutionMode, k: int, id: Identity) -> Result<
    (int, Identity),
    StepError,
> {
    match spec_modrm(s, m, k) {
        Ok(end) => Ok((end, id)),
        Err(e) => Err(e),
    }
}

/// The `0F 38` opcode map.
pub open spec fn spec_map2(s: Seq<u8>, m: ExecutionMode, j2: int, osz: bool, rep: RepPrefix) -> Result<
    (int, Identity),
    StepError,
> {
    if j2 >= s.len() {
        Err(StepError::Truncated)
    } else {
        let b = s[j2];
        if b == 0xF0 || b == 0xF1 {
            if !osz && rep == RepPrefix::RepF2 {
                spec_after_modrm(s, m, j2 + 1, spec_idn(Op::Crc32))
            } else if rep == RepPrefix::NoRep {
                spec_after_modrm(s, m, j2 + 1, spec_idn(Op::Movbe))
            } else {
                Err(StepError::Invalid)
            }
        } else if b == 0xF2 {
            if osz && rep == RepPrefix::NoRep {
                spec_after_modrm(s, m, j2 + 1, spec_idn(Op::PandnPacked))
            } else {
                Err(StepError::Invalid)
            }
        } else {
            Err(StepError::Invalid)
        }
    }
}

/// The `0F` opcode map.
pub open spec fn spec_map1(s: Seq<u8>, m: ExecutionMode, j1: int, osz: bool, rep: RepPrefix) -> Result<
    (int, Identity),
    StepError,
> {
    if j1 >= s.len() {
        Err(StepError::Truncated)
    } else {
        let b = s[j1];
        if b == 0x58 {
            if !osz && rep == RepPrefix::NoRep {
                spec_after_modrm(s, m, j1 + 1, spec_idn(Op::Addps))
            } else if osz && rep == RepPrefix::NoRep {
                spec_after_modrm(s, m, j1 + 1, spec_idn(Op::Addpd))
            } else if !osz && rep == RepPrefix::RepF3 {
                spec_after_modrm(s, m, j1 + 1, spec_idn(Op::Addss))
            } else if !osz && rep == RepPrefix::RepF2 {
                spec_after_modrm(s, m, j1 + 1, spec_idn(Op::Addsd))
            } else {
                Err(StepError::Invalid)
            }
        } else if b == 0xEF {
            if !osz && rep == RepPrefix::NoRep {
                spec_after_modrm(s, m, j1 + 1, spec_idn(Op::PxorMmx))
            } else if osz && rep == RepPrefix::NoRep {
                spec_after_modrm(s, m, j1 + 1, spec_idn(Op::Pxor))
            } else {
                Err(StepError::Invalid)
            }
        } else if b == 0xBC {
            if rep == RepPrefix::RepF3 {
                spec_after_modrm(s, m, j1 + 1, spec_idn(Op::Tzcnt))
            } else if rep == RepPrefix::NoRep {
                spec_after_modrm(s, m, j1 + 1, spec_idn(Op::Bsf))
            } else {
                Err(StepError::Invalid)
            }
        } else if b == 0x38 {
            spec_map2(s, m, j1 + 1, osz, rep)
        } else {
            Err(StepError::Invalid)
        }
    }
}

/// The `VEX` `0F` opcode map; `o` is the opcode byte's cursor.
pub open spec fn spec_vex_map1(s: Seq<u8>, m: ExecutionMode, o: int, l: bool, pp: u8) -> Result<
    (int, Identity),
    StepError,
> {
    if o >= s.len() {
        Err(StepError::Truncated)
    } else {
        let b = s[o];
        if b == 0x58 {
            let op = if pp == 0 {
                Op::Vaddps
            } else if pp == 1 {
                Op::Vaddpd
            } else if pp == 2 {
                Op::Vaddss
            } else {
                Op::Vaddsd
            };
            spec_after_modrm(s, m, o + 1, spec_vid(op, l))
        } else if b == 0xEF {
            if pp == 1 {
                spec_after_modrm(s, m, o + 1, spec_vid(Op::Vpxor, l))
            } else {
                Err(StepError::Invalid)
            }
        } else {
            Err(StepError::Invalid)
        }
    }
}

/// The `VEX` `0F 38` opcode map; these encodings demand vector length 0.
pub open spec fn spec_vex_map2(s: Seq<u8>, m: ExecutionMode, o: int, l: bool, pp: u8) -> Result<
    (int, Identity),
    StepError,
> {
    if o >= s.len() {
        Err(StepError::Truncated)
    } else {
        let b = s[o];
        if b == 0xF2 {
            if pp == 0 && !l {
                spec_after_modrm(s, m, o + 1, spec_idn(Op::Andn))
            } else {
                Err(StepError::Invalid)
            }
        } else if b == 0xF7 {
            if l {
                Err(StepError::Invalid)
            } else {
                let op = if pp == 0 {
                    Op::Bextr
                } else if pp == 1 {
                    Op::Shlx
                } else if pp == 2 {
                    Op::Sarx
                } else {
                    Op::Shrx
                };
                spec_after_modrm(s, m, o + 1, spec_idn(op))
            }
        } else {
            Err(StepError::Invalid)
        }
    }
}

/// A two-byte `VEX` encoding; `j` is the cursor of the `C5` byte.
pub open spec fn spec_vex2(s: Seq<u8>, m: ExecutionMode, j: int) -> Result<(int, Identity), StepError> {
    if j + 1 >= s.len() {
        Err(StepError::Truncated)
    } else {
        let v = s[j + 1];
        spec_vex_map1(s, m, j + 2, v & 4u8 == 4, v & 3u8)
    }
}

/// A three-byte `VEX` encoding; `j` is the cursor of the `C4` byte.
pub open spec fn spec_vex3(s: Seq<u8>, m: ExecutionMode, j: int) -> Result<(int, Identity), StepError> {
    if j + 1 >= s.len() {
        Err(StepError::Truncated)
    } else {
        let mm = s[j + 1] & 0x1Fu8;
        if mm != 1 && mm != 2 {
            Err(StepError::Invalid)
        } else if j + 2 >= s.len() {
            Err(StepError::Truncated)
        } else {
            let v = s[j + 2];
            if mm == 1 {
                spec_vex_map1(s, m, j + 3, v & 4u8 == 4, v & 3u8)
            } else {
                spec_vex_map2(s, m, j + 3, v & 4u8 == 4, v & 3u8)
            }
        }
    }
}

/// Dispatch on the opcode byte at cursor `j`, after the prefixes.
#[verifier::opaque]
pub open spec fn spec_opcode(
    s: Seq<u8>,
    m: ExecutionMode,
    j: int,
    osz: bool,
    rep: RepPrefix,
    rex: bool,
    rexw: bool,
) -> Result<(int, Identity), StepError> {
    if j >= s.len() {
        Err(StepError::Truncated)
    } else {
        let b = s[j];
        if b == 0x90 {
            if osz {
                Err(StepError::Invalid)
            } else if rep == RepPrefix::NoRep {
                Ok((j + 1, spec_idn(Op::Nop)))
            } else if rep == RepPrefix::RepF3 {
                Ok((j + 1, spec_idn(Op::Pause)))
            } else {
                Err(StepError::Invalid)
            }
        } else if b == 0xC3 {
            if !osz && rep == RepPrefix::NoRep {
                Ok((j + 1, spec_idn(Op::Ret)))
            } else {
                Err(StepError::Invalid)
            }
        } else if 0x50 <= b && b <= 0x57 {
            if !osz && rep == RepPrefix::NoRep {
                Ok((j + 1, spec_idn(Op::PushReg)))
            } else {
                Err(StepError::Invalid)
            }
        } else if b == 0x31 {
            if rep == RepPrefix::NoRep {
                spec_after_modrm(s, m, j + 1, spec_idn(Op::XorRmR))
            } else {
                Err(StepError::Invalid)
            }
        } else if 0xB8 <= b && b <= 0xBF {
            if rep == RepPrefix::NoRep {
                let k = spec_imm_size(m, osz, rexw);
                if j + 1 + k <= s.len() {
                    Ok((j + 1 + k, spec_idn(Op::MovImm)))
                } else {
                    Err(StepError::Truncated)
                }
            } else {
                Err(StepError::Invalid)
            }
        } else if 0x40 <= b && b <= 0x4F {
            // reached only outside 64-bit mode, where these bytes are opcodes;
            // in 64-bit mode they were consumed as a REX prefix
            if m == ExecutionMode::Bits64 {
                Err(StepError::Invalid)
            } else if !osz && rep == RepPrefix::NoRep {
                if b <= 0x47 {
                    Ok((j + 1, spec_idn(Op::IncReg)))
                } else {
                    Ok((j + 1, spec_idn(Op::DecReg)))
                }
            } else {
                Err(StepError::Invalid)
            }
        } else if b == 0x0F {
            spec_map1(s, m, j + 1, osz, rep)
        } else if b == 0xC5 || b == 0xC4 {
            // VEX is part of the grammar in 64-bit mode only, and no legacy
            // or REX prefix may precede it
            if m != ExecutionMode::Bits64 || osz || rep != RepPrefix::NoRep || rex {
                Err(StepError::Invalid)
            } else if b == 0xC5 {
                spec_vex2(s, m, j)
            } else {
                spec_vex3(s, m, j)
            }
        } else {
            Err(StepError::Invalid)
        }
    }
}

/// Scan legacy prefixes (and, in 64-bit mode, one REX prefix) from cursor
/// `i`, then dispatch on the opcode.
pub open spec fn spec_prefixes(
    s: Seq<u8>,
    m: ExecutionMode,
    i: int,
    osz: bool,
    rep: RepPrefix,
) -> Result<(int, Identity), StepError>
    decreases s.len() - i,
{
    if i >= s.len() {
        Err(StepError::Truncated)
    } else if s[i] == 0x66 {
        spec_prefixes(s, m, i + 1, true, rep)
    } else if s[i] == 0xF2 {
        spec_prefixes(s, m, i + 1, osz, RepPrefix::RepF2)
    } else if s[i] == 0xF3 {
        spec_prefixes(s, m, i + 1, osz, RepPrefix::RepF3)
    } else if m == ExecutionMode::Bits64 && 0x40 <= s[i] && s[i] <= 0x4F {
        spec_opcode(s, m, i + 1, osz, rep, true, s[i] & 8u8 == 8)
    } else {
        spec_opcode(s, m, i, osz, rep, false, false)
    }
}

/// Decode one instruction starting at cursor `i`: the cursor just past it
/// and its encoding identity, or why it does not decode.
pub open spec fn spec_step(s: Seq<u8>, m: ExecutionMode, i: int) -> Result<(int, Identity), StepError> {
    spec_prefixes(s, m, i, false, RepPrefix::NoRep)
}

/// Decode a whole blob from cursor `i`: the descriptors covering `[i, L)`
/// without gaps or overlaps, or the first error with its offset.
pub open spec fn spec_decode_from(s: Seq<u8>, m: ExecutionMode, i: int) -> Result<
    Seq<InstructionDescriptor>,
    DecodeError,
>
    decreases s.len() - i,
{
    if i >= s.len() {
        Ok(Seq::empty())
    } else {
        match spec_step(s, m, i) {
            Err(StepError::Invalid) => Err(DecodeError::InvalidEncoding { offset: i as usize }),
            Err(StepError::Truncated) => Err(DecodeError::TruncatedInstruction { offset: i as usize }),
            Ok((end, id)) => {
                if i < end <= s.len() {
                    match spec_decode_from(s, m, end) {
                        Ok(rest) => Ok(
                            seq![
                                InstructionDescriptor {
                                    offset: i as usize,
                                    length: (end - i) as usize,
                                    identity: id,
                                },
                            ] + rest,
                        ),
                        Err(e) => Err(e),
                    }
                } else {
                    // the grammar never yields an empty or overlong span;
                    // this arm only keeps the recursion well-founded
                    Err(DecodeError::InvalidEncoding { offset: i as usize })
                }
            },
        }
    }
}

/// Decode a whole blob: descriptors tiling `[0, L)`, or the first error.
pub open spec fn spec_decode(s: Seq<u8>, m: ExecutionMode) -> Result<Seq<InstructionDescriptor>, DecodeError> {
    spec_decode_from(s, m, 0)
}

/// The sum of the descriptors' encoded lengths.
pub open spec fn spec_len_sum(ds: Seq<InstructionDescriptor>) -> int
    decreases ds.len(),
{
    if ds.len() == 0 {
        0
    } else {
        spec_len_sum(ds.drop_last()) + ds.last().length
    }
}

proof fn lemma_len_sum_cons(d: InstructionDescriptor, rest: Seq<InstructionDescriptor>)
    ensures
        spec_len_sum(seq![d] + rest) == d.length + spec_len_sum(rest),
    decreases rest.len(),
{
    if rest.len() == 0 {
        assert(seq![d] + rest =~= seq![d]);
        assert(spec_len_sum(rest) == 0);
        assert(seq![d].drop_last() =~= rest);
        assert(spec_len_sum(seq![d]) == spec_len_sum(seq![d].drop_last()) + d.length);
    } else {
        lemma_len_sum_cons(d, rest.drop_last());
        assert((seq![d] + rest).drop_last() =~= seq![d] + rest.drop_last());
        assert((seq![d] + rest).last() == rest.last());
        assert(spec_len_sum(rest) == spec_len_sum(rest.drop_last()) + rest.last().length);
    }
}

/// The descriptors' byte spans tile `[i, end)` exactly: the first starts at
/// `i`, each span is non-empty and starts where the previous one ended, and
/// the last ends at `end` - so the spans are disjoint and leave no gap.
pub open spec fn spec_tiles(ds: Seq<InstructionDescriptor>, i: int, end: int) -> bool
    decreases ds.len(),
{
    if ds.len() == 0 {
        i == end
    } else {
        &&& ds[0].offset == i
        &&& ds[0].length >= 1
        &&& spec_tiles(ds.drop_first(), i + ds[0].length, end)
    }
}

/// Spans that tile `[i, end)` have lengths summing to `end - i`.
pub proof fn lemma_tiles_len_sum(ds: Seq<InstructionDescriptor>, i: int, end: int)
    requires
        spec_tiles(ds, i, end),
    ensures
        spec_len_sum(ds) == end - i,
    decreases ds.len(),
{
    if ds.len() == 0 {
    } else {
        lemma_tiles_len_sum(ds.drop_first(), i + ds[0].length, end);
        assert(ds =~= seq![ds[0]] + ds.drop_first());
        lemma_len_sum_cons(ds[0], ds.drop_first());
    }
}

#[verifier::rlimit(100)]
proof fn lemma_decode_from_tiles(s: Seq<u8>, m: ExecutionMode, i: int)
    requires
        0 <= i <= s.len() <= usize::MAX,
    ensures
        (match spec_decode_from(s, m, i) {
            Ok(ds) => spec_tiles(ds, i, s.len() as int),
            Err(_) => true,
        }),
    decreases s.len() - i,
{
    if i >= s.len() {
    } else {
        match spec_step(s, m, i) {
            Ok((end, id)) => {
                if i < end <= s.len() {
                    lemma_decode_from_tiles(s, m, end);
                    match spec_decode_from(s, m, end) {
                        Ok(rest) => {
                            let d = InstructionDescriptor {
                                offset: i as usize,
                                length: (end - i) as usize,
                                identity: id,
                            };
                            let ds = seq![d] + rest;
                            assert(spec_decode_from(s, m, i) == Ok::<
                                Seq<InstructionDescriptor>,
                                DecodeError,
                            >(ds));
                            assert(d.offset == i);
                            assert(d.length == end - i);
                            assert(spec_tiles(rest, end, s.len() as int));
                            assert(ds[0] == d);
                            assert(ds.drop_first() =~= rest);
                        },
                        Err(_) => {},
                    }
                }
            },
            Err(_) => {},
        }
    }
}

/// Coverage: when a blob decodes successfully, the descriptors' lengths sum
/// to the blob's length and their byte spans are disjoint and exactly tile
/// `[0, L)` - the first starts at offset 0, each next starts where the
/// previous ended, and the last ends at `L`.
pub proof fn lemma_decode_covers(s: Seq<u8>, m: ExecutionMode)
    requires
        s.len() <= usize::MAX,
    ensures
        (match spec_decode(s, m) {
            Ok(ds) => spec_tiles(ds, 0, s.len() as int) && spec_len_sum(ds) == s.len(),
            Err(_) => true,
        }),
{
    lemma_decode_from_tiles(s, m, 0);
    if spec_decode(s, m) is Ok {
        lemma_tiles_len_sum(spec_decode(s, m)->Ok_0, 0, s.len() as int);
    }
}

/// The cursor just past a ModRM byte and what follows it.
fn modrm_end(blob: &Vec<u8>, m: ExecutionMode, k: usize) -> (r: Result<usize, StepError>)
    requires
        k <= blob@.len(),
    ensures
        (match spec_modrm(blob@, m, k as int) {
            Ok(end) => r == Ok::<usize, StepError>(end as usize) && k < end <= blob@.len(),
            Err(e) => r == Err::<usize, StepError>(e),
        }),
{
    let n = blob.len();
    if k >= n {
        return Err(StepError::Truncated);
    }
    let md = blob[k] >> 6u8;
    let rm = blob[k] & 7u8;
    if md == 3 {
        Ok(k + 1)
    } else if matches!(m, ExecutionMode::Bits16) {
        let disp: usize = if md == 1 { 1 } else if md == 2 || rm == 6 { 2 } else { 0 };
        if n - k >= 1 + disp {
            Ok(k + 1 + disp)
        } else {
            Err(StepError::Truncated)
        }
    } else if rm == 4 {
        if n - k < 2 {
            return Err(StepError::Truncated);
        }
        let base = blob[k + 1] & 7u8;
        let disp: usize = if md == 1 { 1 } else if md == 2 { 4 } else if base == 5 { 4 } else { 0 };
        if n - k >= 2 + disp {
            Ok(k + 2 + disp)
        } else {
            Err(StepError::Truncated)
        }
    } else {
        let disp: usize = if md == 1 { 1 } else if md == 2 { 4 } else if rm == 5 { 4 } else { 0 };
        if n - k >= 1 + disp {
            Ok(k + 1 + disp)
        } else {
            Err(StepError::Truncated)
        }
    }
}

/// Dispatch on the opcode byte at cursor `j`.
#[verifier::rlimit(30)]
fn decode_opcode(
    blob: &Vec<u8>,
    m: ExecutionMode,
    j: usize,
    osz: bool,
    rep: RepPrefix,
    rex: bool,
    rexw: bool,
) -> (r: Result<(usize, Identity), StepError>)
    requires
        j <= blob@.len(),
    ensures
        (match spec_opcode(blob@, m, j as int, osz, rep, rex, rexw) {
            Ok((end, id)) => r == Ok::<(usize, Identity), StepError>((end as usize, id)) && j < end
                <= blob@.len(),
            Err(e) => r == Err::<(usize, Identity), StepError>(e),
        }),
{
    proof {
        reveal(spec_opcode);
    }
    let n = blob.len();
    if j >= n {
        return Err(StepError::Truncated);
    }
    let b = blob[j];
    let norep = matches!(rep, RepPrefix::NoRep);
    if b == 0x90 {
        if osz {
            Err(StepError::Invalid)
        } else if norep {
            Ok((j + 1, Identity { op: Op::Nop, wide_vector: false }))
        } else if matches!(rep, RepPrefix::RepF3) {
            Ok((j + 1, Identity { op: Op::Pause, wide_vector: false }))
        } else {
            Err(StepError::Invalid)
        }
    } else if b == 0xC3 {
        if !osz && norep {
            Ok((j + 1, Identity { op: Op::Ret, wide_vector: false }))
        } else {
            Err(StepError::Invalid)
        }
    } else if 0x50 <= b && b <= 0x57 {
        if !osz && norep {
            Ok((j + 1, Identity { op: Op::PushReg, wide_vector: false }))
        } else {
            Err(StepError::Invalid)
        }
    } else if b == 0x31 {
        if norep {
            match modrm_end(blob, m, j + 1) {
                Ok(end) => Ok((end, Identity { op: Op::XorRmR, wide_vector: false })),
                Err(e) => Err(e),
            }
        } else {
            Err(StepError::Invalid)
        }
    } else if 0xB8 <= b && b <= 0xBF {
        if norep {
            let k: usize = if matches!(m, ExecutionMode::Bits64) && rexw {
                8
            } else if matches!(m, ExecutionMode::Bits16) {
                if osz { 4 } else { 2 }
            } else {
                if osz { 2 } else { 4 }
            };
            if n - j >= 1 && n - j - 1 >= k {
                Ok((j + 1 + k, Identity { op: Op::MovImm, wide_vector: false }))
            } else {
                Err(StepError::Truncated)
            }
        } else {
            Err(StepError::Invalid)
        }
    } else if 0x40 <= b && b <= 0x4F {
        if matches!(m, ExecutionMode::Bits64) {
            Err(StepError::Invalid)
        } else if !osz && norep {
            if b <= 0x47 {
                Ok((j + 1, Identity { op: Op::IncReg, wide_vector: false }))
            } else {
                Ok((j + 1, Identity { op: Op::DecReg, wide_vector: false }))
            }
        } else {
            Err(StepError::Invalid)
        }
    } else if b == 0x0F {
        decode_map1(blob, m, j + 1, osz, rep)
    } else if b == 0xC5 || b == 0xC4 {
        if !matches!(m, ExecutionMode::Bits64) || osz || !norep || rex {
            Err(StepError::Invalid)
        } else if b == 0xC5 {
            if n - j < 2 {
                return Err(StepError::Truncated);
            }
            let v = blob[j + 1];
            decode_vex_map1(blob, m, j + 2, v & 4u8 == 4, v & 3u8)
        } else {
            if n - j < 2 {
                return Err(StepError::Truncated);
            }
            let mm = blob[j + 1] & 0x1Fu8;
            if mm != 1 && mm != 2 {
                return Err(StepError::Invalid);
            }
            if n - j < 3 {
                return Err(StepError::Truncated);
            }
            let v = blob[j + 2];
            if mm == 1 {
                decode_vex_map1(blob, m, j + 3, v & 4u8 == 4, v & 3u8)
            } else {
                decode_vex_map2(blob, m, j + 3, v & 4u8 == 4, v & 3u8)
            }
        }
    } else {
        Err(StepError::Invalid)
    }
}

/// The `0F` opcode map.
fn decode_map1(blob: &Vec<u8>, m: ExecutionMode, j1: usize, osz: bool, rep: RepPrefix) -> (r: Result<
    (usize, Identity),
    StepError,
>)
    requires
        j1 <= blob@.len(),
    ensures
        (match spec_map1(blob@, m, j1 as int, osz, rep) {
            Ok((end, id)) => r == Ok::<(usize, Identity), StepError>((end as usize, id)) && j1 < end
                <= blob@.len(),
            Err(e) => r == Err::<(usize, Identity), StepError>(e),
        }),
{
    let n = blob.len();
    if j1 >= n {
        return Err(StepError::Truncated);
    }
    let b = blob[j1];
    let norep = matches!(rep, RepPrefix::NoRep);
    if b == 0x58 {
        let op = if !osz && norep {
            Op::Addps
        } else if osz && norep {
            Op::Addpd
        } else if !osz && matches!(rep, RepPrefix::RepF3) {
            Op::Addss
        } else if !osz && matches!(rep, RepPrefix::RepF2) {
            Op::Addsd
        } else {
            return Err(StepError::Invalid);
        };
        match modrm_end(blob, m, j1 + 1) {
            Ok(end) => Ok((end, Identity { op: op, wide_vector: false })),
            Err(e) => Err(e),
        }
    } else if b == 0xEF {
        let op = if !osz && norep {
            Op::PxorMmx
        } else if osz && norep {
            Op::Pxor
        } else {
            return Err(StepError::Invalid);
        };
        match modrm_end(blob, m, j1 + 1) {
            Ok(end) => Ok((end, Identity { op: op, wide_vector: false })),
            Err(e) => Err(e),
        }
    } else if b == 0xBC {
        let op = if matches!(rep, RepPrefix::RepF3) {
            Op::Tzcnt
        } else if norep {
            Op::Bsf
        } else {
            return Err(StepError::Invalid);
        };
        match modrm_end(blob, m, j1 + 1) {
            Ok(end) => Ok((end, Identity { op: op, wide_vector: false })),
            Err(e) => Err(e),
        }
    } else if b == 0x38 {
        decode_map2(blob, m, j1 + 1, osz, rep)
    } else {
        Err(StepError::Invalid)
    }
}

/// The `0F 38` opcode map.
fn decode_map2(blob: &Vec<u8>, m: ExecutionMode, j2: usize, osz: bool, rep: RepPrefix) -> (r: Result<
    (usize, Identity),
    StepError,
>)
    requires
        j2 <= blob@.len(),
    ensures
        (match spec_map2(blob@, m, j2 as int, osz, rep) {
            Ok((end, id)) => r == Ok::<(usize, Identity), StepError>((end as usize, id)) && j2 < end
                <= blob@.len(),
            Err(e) => r == Err::<(usize, Identity), StepError>(e),
        }),
{
    let n = blob.len();
    if j2 >= n {
        return Err(StepError::Truncated);
    }
    let b = blob[j2];
    let norep = matches!(rep, RepPrefix::NoRep);
    if b == 0xF0 || b == 0xF1 {
        let op = if !osz && matches!(rep, RepPrefix::RepF2) {
            Op::Crc32
        } else if norep {
            Op::Movbe
        } else {
            return Err(StepError::Invalid);
        };
        match modrm_end(blob, m, j2 + 1) {
            Ok(end) => Ok((end, Identity { op: op, wide_vector: false })),
            Err(e) => Err(e),
        }
    } else if b == 0xF2 {
        if osz && norep {
            match modrm_end(blob, m, j2 + 1) {
                Ok(end) => Ok((end, Identity { op: Op::PandnPacked, wide_vector: false })),
                Err(e) => Err(e),
            }
        } else {
            Err(StepError::Invalid)
        }
    } else {
        Err(StepError::Invalid)
    }
}

/// The `VEX` `0F` opcode map.
fn decode_vex_map1(blob: &Vec<u8>, m: ExecutionMode, o: usize, l: bool, pp: u8) -> (r: Result<
    (usize, Identity),
    StepError,
>)
    requires
        o <= blob@.len(),
    ensures
        (match spec_vex_map1(blob@, m, o as int, l, pp) {
            Ok((end, id)) => r == Ok::<(usize, Identity), StepError>((end as usize, id)) && o < end
                <= blob@.len(),
            Err(e) => r == Err::<(usize, Identity), StepError>(e),
        }),
{
    let n = blob.len();
    if o >= n {
        return Err(StepError::Truncated);
    }
    let b = blob[o];
    if b == 0x58 {
        let op = if pp == 0 {
            Op::Vaddps
        } else if pp == 1 {
            Op::Vaddpd
        } else if pp == 2 {
            Op::Vaddss
        } else {
            Op::Vaddsd
        };
        match modrm_end(blob, m, o + 1) {
            Ok(end) => Ok((end, Identity { op: op, wide_vector: l })),
            Err(e) => Err(e),
        }
    } else if b == 0xEF {
        if pp == 1 {
            match modrm_end(blob, m, o + 1) {
                Ok(end) => Ok((end, Identity { op: Op::Vpxor, wide_vector: l })),
                Err(e) => Err(e),
            }
        } else {
            Err(StepError::Invalid)
        }
    } else {
        Err(StepError::Invalid)
    }
}

/// The `VEX` `0F 38` opcode map.
fn decode_vex_map2(blob: &Vec<u8>, m: ExecutionMode, o: usize, l: bool, pp: u8) -> (r: Result<
    (usize, Identity),
    StepError,
>)
    requires
        o <= blob@.len(),
    ensures
        (match spec_vex_map2(blob@, m, o as int, l, pp) {
            Ok((end, id)) => r == Ok::<(usize, Identity), StepError>((end as usize, id)) && o < end
                <= blob@.len(),
            Err(e) => r == Err::<(usize, Identity), StepError>(e),
        }),
{
    let n = blob.len();
    if o >= n {
        return Err(StepError::Truncated);
    }
    let b = blob[o];
    if b == 0xF2 {
        if pp == 0 && !l {
            match modrm_end(blob, m, o + 1) {
                Ok(end) => Ok((end, Identity { op: Op::Andn, wide_vector: false })),
                Err(e) => Err(e),
            }
        } else {
            Err(StepError::Invalid)
        }
    } else if b == 0xF7 {
        if l {
            Err(StepError::Invalid)
        } else {
            let op = if pp == 0 {
                Op::Bextr
            } else if pp == 1 {
                Op::Shlx
            } else if pp == 2 {
                Op::Sarx
            } else {
                Op::Shrx
            };
            match modrm_end(blob, m, o + 1) {
                Ok(end) => Ok((end, Identity { op: op, wide_vector: false })),
                Err(e) => Err(e),
            }
        }
    } else {
        Err(StepError::Invalid)
    }
}

/// Decode the one instruction starting at cursor `i`.
fn decode_step(blob: &Vec<u8>, m: ExecutionMode, i: usize) -> (r: Result<(usize, Identity), StepError>)
    requires
        i <= blob@.len(),
    ensures
        (match spec_step(blob@, m, i as int) {
            Ok((end, id)) => r == Ok::<(usize, Identity), StepError>((end as usize, id)) && i < end
                <= blob@.len(),
            Err(e) => r == Err::<(usize, Identity), StepError>(e),
        }),
{
    let n = blob.len();
    let mut j = i;
    let mut osz = false;
    let mut rep = RepPrefix::NoRep;
    while j < n && (blob[j] == 0x66 || blob[j] == 0xF2 || blob[j] == 0xF3)
        invariant
            i <= j <= n,
            n == blob@.len(),
            spec_prefixes(blob@, m, i as int, false, RepPrefix::NoRep) == spec_prefixes(
                blob@,
                m,
                j as int,
                osz,
                rep,
            ),
        decreases n - j,
    {
        let b = blob[j];
        if b == 0x66 {
            osz = true;
        } else if b == 0xF2 {
            rep = RepPrefix::RepF2;
        } else {
            rep = RepPrefix::RepF3;
        }
        j += 1;
    }
    if j >= n {
        return Err(StepError::Truncated);
    }
    let b = blob[j];
    if matches!(m, ExecutionMode::Bits64) && 0x40 <= b && b <= 0x4F {
        decode_opcode(blob, m, j + 1, osz, rep, true, b & 8u8 == 8)
    } else {
        decode_opcode(blob, m, j, osz, rep, false, false)
    }
}

/// Decode a whole code blob into its instruction descriptors.
///
/// On success the descriptors cover `[0, L)` from offset 0 without gaps or
/// overlaps; a byte sequence outside the grammar yields
/// `DecodeError::InvalidEncoding` and a blob that ends mid-instruction
/// yields `DecodeError::TruncatedInstruction`, each carrying the offset
/// where the offending instruction starts. A zero-length blob yields the
/// empty descriptor sequence and no error.
pub fn decode_all(blob: &Vec<u8>, mode: ExecutionMode) -> (r: Result<Vec<InstructionDescriptor>, DecodeError>)
    ensures
        (match r {
            Ok(ds) => spec_decode(blob@, mode) == Ok::<Seq<InstructionDescriptor>, DecodeError>(ds@),
            Err(e) => spec_decode(blob@, mode) == Err::<Seq<InstructionDescriptor>, DecodeError>(e),
        }),
{
    let n = blob.len();
    let mut out: Vec<InstructionDescriptor> = Vec::new();
    let mut pos: usize = 0;
    while pos < n
        invariant
            0 <= pos <= n,
            n == blob@.len(),
            spec_decode_from(blob@, mode, 0) == (match spec_decode_from(blob@, mode, pos as int) {
                Ok(rest) => Ok::<Seq<InstructionDescriptor>, DecodeError>(out@ + rest),
                Err(e) => Err::<Seq<InstructionDescriptor>, DecodeError>(e),
            }),
        decreases n - pos,
    {
        match decode_step(blob, mode, pos) {
            Ok((end, id)) => {
                let d = InstructionDescriptor { offset: pos, length: end - pos, identity: id };
                proof {
                    let ghost rest0 = spec_decode_from(blob@, mode, end as int);
                    assert(spec_decode_from(blob@, mode, pos as int) == (match rest0 {
                        Ok(rest) => Ok::<Seq<InstructionDescriptor>, DecodeError>(seq![d] + rest),
                        Err(e) => Err::<Seq<InstructionDescriptor>, DecodeError>(e),
                    }));
                    if rest0 is Ok {
                        assert(out@ + (seq![d] + rest0->Ok_0) =~= out@.push(d) + rest0->Ok_0);
                    }
                }
                out.push(d);
                pos = end;
            },
            Err(StepError::Invalid) => {
                return Err(DecodeError::InvalidEncoding { offset: pos });
            },
            Err(StepError::Truncated) => {
                return Err(DecodeError::TruncatedInstruction { offset: pos });
            },
        }
    }
    proof {
        assert(spec_decode_from(blob@, mode, pos as int) == Ok::<Seq<InstructionDescriptor>, DecodeError>(
            Seq::empty(),
        ));
        assert(out@ + Seq::empty() =~= out@);
    }
    Ok(out)
}

} // verus!
