use isascan::ExecutionMode;
use isascan::aggregate::{aggregate, aggregate_parallel, analyze_blob, analyze_blob_parallel};
use isascan::decoder::{DecodeError, decode_all};
use isascan::feature_set::FeatureSet;
use isascan::features::FeatureId;

fn set_of(features: &[FeatureId]) -> FeatureSet {
    let mut s = FeatureSet::new();
    for f in features {
        s.insert_feature(*f);
    }
    s
}

#[test]
fn empty_blob_yields_empty_set_and_no_error() {
    let blob: Vec<u8> = Vec::new();
    let fs = analyze_blob(&blob, ExecutionMode::Bits64).unwrap();
    assert!(fs.is_empty());
    let ds = decode_all(&blob, ExecutionMode::Bits64).unwrap();
    assert_eq!(ds.len(), 0);
}

#[test]
fn single_nop_decodes_to_one_descriptor_and_empty_set() {
    let blob = vec![0x90u8];
    let ds = decode_all(&blob, ExecutionMode::Bits64).unwrap();
    assert_eq!(ds.len(), 1);
    assert_eq!(ds[0].offset, 0);
    assert_eq!(ds[0].length, 1);
    let fs = analyze_blob(&blob, ExecutionMode::Bits64).unwrap();
    assert!(fs.is_empty());
    // the same encoding is the no-op in every mode
    for mode in [ExecutionMode::Bits16, ExecutionMode::Bits32] {
        let ds = decode_all(&blob, mode).unwrap();
        assert_eq!(ds.len(), 1);
        assert!(analyze_blob(&blob, mode).unwrap().is_empty());
    }
}

#[test]
fn avx2_instruction_yields_exactly_avx2() {
    // vpxor ymm: two-byte VEX, L=1, pp=66, opcode EF, register-direct ModRM
    let blob = vec![0xC5u8, 0xFD, 0xEF, 0xC0];
    let fs = analyze_blob(&blob, ExecutionMode::Bits64).unwrap();
    assert!(fs.set_eq(&set_of(&[FeatureId::Avx2])));
}

#[test]
fn vex_128_form_yields_avx_not_avx2() {
    // vpxor xmm: two-byte VEX, L=0
    let blob = vec![0xC5u8, 0xF9, 0xEF, 0xC0];
    let fs = analyze_blob(&blob, ExecutionMode::Bits64).unwrap();
    assert!(fs.set_eq(&set_of(&[FeatureId::Avx])));
}

#[test]
fn sse2_and_sse2_bmi1_deduplicate() {
    // pxor xmm (66 0F EF /r) requires SSE2;
    // packed bit-clear (66 0F 38 F2 /r) requires SSE2 and BMI1 jointly
    let blob = vec![0x66u8, 0x0F, 0xEF, 0xC0, 0x66, 0x0F, 0x38, 0xF2, 0xC0];
    let fs = analyze_blob(&blob, ExecutionMode::Bits64).unwrap();
    assert!(fs.set_eq(&set_of(&[FeatureId::Sse2, FeatureId::Bmi1])));
}

#[test]
fn truncated_instruction_reports_its_offset() {
    // NOP, then a mov-imm opcode whose 4 immediate bytes are missing
    let blob = vec![0x90u8, 0xB8];
    let r = decode_all(&blob, ExecutionMode::Bits32);
    assert_eq!(r.unwrap_err(), DecodeError::TruncatedInstruction { offset: 1 });
}

#[test]
fn lone_prefix_is_truncated_at_blob_start() {
    let blob = vec![0x66u8];
    let r = decode_all(&blob, ExecutionMode::Bits32);
    assert_eq!(r.unwrap_err(), DecodeError::TruncatedInstruction { offset: 0 });
}

#[test]
fn invalid_encoding_reports_its_offset() {
    let blob = vec![0x90u8, 0x06];
    let r = decode_all(&blob, ExecutionMode::Bits64);
    assert_eq!(r.unwrap_err(), DecodeError::InvalidEncoding { offset: 1 });
}

#[test]
fn descriptors_tile_the_blob() {
    // ret; push; xor r/m32,r32 reg-direct; mov eax, imm32
    let blob = vec![0xC3u8, 0x50, 0x31, 0xC0, 0xB8, 1, 2, 3, 4];
    let ds = decode_all(&blob, ExecutionMode::Bits32).unwrap();
    assert_eq!(ds.len(), 4);
    let mut next = 0usize;
    let mut sum = 0usize;
    for d in &ds {
        assert_eq!(d.offset, next);
        assert!(d.length >= 1);
        next = d.offset + d.length;
        sum += d.length;
    }
    assert_eq!(next, blob.len());
    assert_eq!(sum, blob.len());
}

#[test]
fn mov_imm_length_follows_mode_and_prefix() {
    // 16-bit mode: imm16
    let ds = decode_all(&vec![0xB8u8, 1, 2], ExecutionMode::Bits16).unwrap();
    assert_eq!(ds[0].length, 3);
    // 16-bit mode with operand-size prefix: imm32
    let ds = decode_all(&vec![0x66u8, 0xB8, 1, 2, 3, 4], ExecutionMode::Bits16).unwrap();
    assert_eq!(ds[0].length, 6);
    // 32-bit mode: imm32
    let ds = decode_all(&vec![0xB8u8, 1, 2, 3, 4], ExecutionMode::Bits32).unwrap();
    assert_eq!(ds[0].length, 5);
    // 64-bit mode with REX.W: imm64
    let ds = decode_all(&vec![0x48u8, 0xB8, 1, 2, 3, 4, 5, 6, 7, 8], ExecutionMode::Bits64).unwrap();
    assert_eq!(ds[0].length, 10);
}

#[test]
fn rex_bytes_are_inc_dec_outside_64_bit_mode() {
    let ds = decode_all(&vec![0x40u8], ExecutionMode::Bits32).unwrap();
    assert_eq!(ds.len(), 1);
    assert_eq!(ds[0].length, 1);
    // in 64-bit mode the same byte is a prefix needing an opcode after it
    let r = decode_all(&vec![0x40u8], ExecutionMode::Bits64);
    assert_eq!(r.unwrap_err(), DecodeError::TruncatedInstruction { offset: 0 });
    // REX followed by NOP is one two-byte instruction
    let ds = decode_all(&vec![0x40u8, 0x90], ExecutionMode::Bits64).unwrap();
    assert_eq!(ds.len(), 1);
    assert_eq!(ds[0].length, 2);
}

#[test]
fn modrm_addressing_lengths() {
    // 32-bit mode, mod=00 rm=101: disp32
    let ds = decode_all(&vec![0x31u8, 0x05, 1, 2, 3, 4], ExecutionMode::Bits32).unwrap();
    assert_eq!(ds[0].length, 6);
    // 32-bit mode, SIB with base=101 under mod=00: disp32
    let ds = decode_all(&vec![0x31u8, 0x04, 0x25, 1, 2, 3, 4], ExecutionMode::Bits32).unwrap();
    assert_eq!(ds[0].length, 7);
    // 16-bit mode, mod=00 rm=110: disp16
    let ds = decode_all(&vec![0x31u8, 0x06, 1, 2], ExecutionMode::Bits16).unwrap();
    assert_eq!(ds[0].length, 4);
    // truncated displacement
    let r = decode_all(&vec![0x31u8, 0x05, 1, 2], ExecutionMode::Bits32);
    assert_eq!(r.unwrap_err(), DecodeError::TruncatedInstruction { offset: 0 });
}

#[test]
fn vex_is_invalid_outside_64_bit_mode() {
    let blob = vec![0xC5u8, 0xFD, 0xEF, 0xC0];
    let r = decode_all(&blob, ExecutionMode::Bits32);
    assert_eq!(r.unwrap_err(), DecodeError::InvalidEncoding { offset: 0 });
}

#[test]
fn classifier_covers_more_of_the_table() {
    // pause
    let fs = analyze_blob(&vec![0xF3u8, 0x90], ExecutionMode::Bits64).unwrap();
    assert!(fs.set_eq(&set_of(&[FeatureId::Sse2])));
    // tzcnt
    let fs = analyze_blob(&vec![0xF3u8, 0x0F, 0xBC, 0xC0], ExecutionMode::Bits64).unwrap();
    assert!(fs.set_eq(&set_of(&[FeatureId::Bmi1])));
    // crc32
    let fs = analyze_blob(&vec![0xF2u8, 0x0F, 0x38, 0xF0, 0xC0], ExecutionMode::Bits64).unwrap();
    assert!(fs.set_eq(&set_of(&[FeatureId::Sse42])));
    // movbe
    let fs = analyze_blob(&vec![0x0Fu8, 0x38, 0xF0, 0xC0], ExecutionMode::Bits64).unwrap();
    assert!(fs.set_eq(&set_of(&[FeatureId::Movbe])));
    // andn (three-byte VEX, map 2)
    let fs = analyze_blob(&vec![0xC4u8, 0xE2, 0x78, 0xF2, 0xC0], ExecutionMode::Bits64).unwrap();
    assert!(fs.set_eq(&set_of(&[FeatureId::Bmi1])));
    // addps / addpd
    let fs = analyze_blob(&vec![0x0Fu8, 0x58, 0xC0], ExecutionMode::Bits64).unwrap();
    assert!(fs.set_eq(&set_of(&[FeatureId::Sse])));
    let fs = analyze_blob(&vec![0x66u8, 0x0F, 0x58, 0xC0], ExecutionMode::Bits64).unwrap();
    assert!(fs.set_eq(&set_of(&[FeatureId::Sse2])));
    // pxor on mmx registers (no prefix)
    let fs = analyze_blob(&vec![0x0Fu8, 0xEF, 0xC0], ExecutionMode::Bits64).unwrap();
    assert!(fs.set_eq(&set_of(&[FeatureId::Mmx])));
    // shlx (three-byte VEX, map 2, pp=66)
    let fs = analyze_blob(&vec![0xC4u8, 0xE2, 0x79, 0xF7, 0xC0], ExecutionMode::Bits64).unwrap();
    assert!(fs.set_eq(&set_of(&[FeatureId::Bmi2])));
}

#[test]
fn chunked_aggregation_equals_single_pass() {
    let blob = vec![
        0x66u8, 0x0F, 0xEF, 0xC0, // pxor: SSE2
        0x90, // nop
        0xC5, 0xFD, 0xEF, 0xC0, // vpxor ymm: AVX2
        0xF3, 0x0F, 0xBC, 0xC0, // tzcnt: BMI1
        0xF2, 0x0F, 0x38, 0xF1, 0xC0, // crc32: SSE42
    ];
    let ds = decode_all(&blob, ExecutionMode::Bits64).unwrap();
    let single = aggregate(&ds);
    for chunk in [1usize, 2, 3, 100] {
        let chunked = aggregate_parallel(&ds, chunk);
        assert!(single.set_eq(&chunked));
    }
    let direct = analyze_blob_parallel(&blob, ExecutionMode::Bits64, 2).unwrap();
    assert!(single.set_eq(&direct));
    let expected = set_of(&[FeatureId::Sse2, FeatureId::Avx2, FeatureId::Bmi1, FeatureId::Sse42]);
    assert!(single.set_eq(&expected));
}

#[test]
fn processing_twice_and_union_with_self_change_nothing() {
    let blob = vec![0x66u8, 0x0F, 0xEF, 0xC0, 0xC5, 0xFD, 0xEF, 0xC0];
    let once = analyze_blob(&blob, ExecutionMode::Bits64).unwrap();
    let twice = analyze_blob(&blob, ExecutionMode::Bits64).unwrap();
    assert!(once.set_eq(&twice));
    let mut merged = once.duplicate();
    merged.union_with(&twice);
    assert!(merged.set_eq(&once));
}

#[test]
fn feature_set_deduplicates_and_answers_membership() {
    let mut s = FeatureSet::new();
    assert!(s.is_empty());
    s.insert_feature(FeatureId::Sse2);
    s.insert_feature(FeatureId::Sse2);
    s.insert_feature(FeatureId::Bmi1);
    assert!(!s.is_empty());
    assert!(s.contains_feature(FeatureId::Sse2));
    assert!(s.contains_feature(FeatureId::Bmi1));
    assert!(!s.contains_feature(FeatureId::Avx2));
    let codes = s.to_vec();
    assert_eq!(codes.len(), 2);
    assert!(codes.contains(&FeatureId::Sse2.code()));
    assert!(codes.contains(&FeatureId::Bmi1.code()));
    let other = set_of(&[FeatureId::Bmi1, FeatureId::Sse2]);
    assert!(s.set_eq(&other));
    assert!(!s.set_eq(&set_of(&[FeatureId::Sse2])));
}
